[package]
name = "unreceived_acks"
version = "0.1.0"
edition = "2021"
publish = false

[dependencies]
abscissa_core = "0.6.0"
ibc = "0.16.0"
ibc-relayer = "0.16.0"

//! Resolution of unreceived acknowledgements on a channel between two chains.
//!
//! A packet sent over a channel leaves a commitment on the sending chain until
//! that chain has processed the matching acknowledgement. The receiving chain
//! writes an acknowledgement once it has processed the packet. The sequences
//! that have both a pending commitment on the source and an acknowledgement
//! on the destination are the acknowledgements that still have to be relayed.
//!
//! The crate performs no I/O. The resolver is a state machine: it names the
//! query that has to be made next, the caller makes it against the chain and
//! hands the reply back.

pub mod channel;
pub mod command;
pub mod error;
pub mod model;
pub mod resolution;
pub mod resolver;
pub mod sequence;

//! Identifiers of chains, ports and channels, and the resolved picture of a
//! channel.
//!
//! Identifiers are opaque here: they are carried from the caller into the
//! queries and never inspected. Their syntax is the caller's concern.

use vstd::prelude::*;

verus! {

/// The name of a chain.
#[derive(Debug, PartialEq, Eq)]
pub struct ChainId(pub String);

/// The name of a port on a chain.
#[derive(Debug, PartialEq, Eq)]
pub struct PortId(pub String);

/// The name of a channel on a chain.
#[derive(Debug, PartialEq, Eq)]
pub struct ChannelId(pub String);

/// The name of a connection on a chain.
#[derive(Debug, PartialEq, Eq)]
pub struct ConnectionId(pub String);

/// The name of a light client on a chain.
#[derive(Debug, PartialEq, Eq)]
pub struct ClientId(pub String);

impl View for ChainId {
    type V = Seq<char>;

    open spec fn view(&self) -> Seq<char> {
        self.0@
    }
}

impl Clone for ChainId {
    fn clone(&self) -> (copy: Self)
        ensures
            copy == *self,
    {
        ChainId(self.0.clone())
    }
}

impl View for PortId {
    type V = Seq<char>;

    open spec fn view(&self) -> Seq<char> {
        self.0@
    }
}

impl Clone for PortId {
    fn clone(&self) -> (copy: Self)
        ensures
            copy == *self,
    {
        PortId(self.0.clone())
    }
}

impl View for ChannelId {
    type V = Seq<char>;

    open spec fn view(&self) -> Seq<char> {
        self.0@
    }
}

impl Clone for ChannelId {
    fn clone(&self) -> (copy: Self)
        ensures
            copy == *self,
    {
        ChannelId(self.0.clone())
    }
}

impl View for ConnectionId {
    type V = Seq<char>;

    open spec fn view(&self) -> Seq<char> {
        self.0@
    }
}

impl Clone for ConnectionId {
    fn clone(&self) -> (copy: Self)
        ensures
            copy == *self,
    {
        ConnectionId(self.0.clone())
    }
}

impl View for ClientId {
    type V = Seq<char>;

    open spec fn view(&self) -> Seq<char> {
        self.0@
    }
}

impl Clone for ClientId {
    fn clone(&self) -> (copy: Self)
        ensures
            copy == *self,
    {
        ClientId(self.0.clone())
    }
}

/// One end of a channel: a port and a channel on a chain.
#[derive(Debug, PartialEq, Eq)]
pub struct ChannelEnd {
    pub chain_id: ChainId,
    pub port_id: PortId,
    pub channel_id: ChannelId,
}

/// What a `ChannelEnd` names.
pub struct ChannelEndView {
    pub chain_id: Seq<char>,
    pub port_id: Seq<char>,
    pub channel_id: Seq<char>,
}

impl View for ChannelEnd {
    type V = ChannelEndView;

    open spec fn view(&self) -> ChannelEndView {
        ChannelEndView {
            chain_id: self.chain_id@,
            port_id: self.port_id@,
            channel_id: self.channel_id@,
        }
    }
}

impl Clone for ChannelEnd {
    fn clone(&self) -> (copy: Self)
        ensures
            copy == *self,
    {
        ChannelEnd {
            chain_id: self.chain_id.clone(),
            port_id: self.port_id.clone(),
            channel_id: self.channel_id.clone(),
        }
    }
}

/// A channel as its chain describes it: the port and channel on that chain,
/// the end on the counterparty chain, and the connection and client that
/// carry it.
#[derive(Debug, PartialEq, Eq)]
pub struct ChannelDescriptor {
    pub port_id: PortId,
    pub channel_id: ChannelId,
    pub counterparty: ChannelEnd,
    pub connection_id: ConnectionId,
    pub client_id: ClientId,
}

/// What a `ChannelDescriptor` names.
pub struct ChannelDescriptorView {
    pub port_id: Seq<char>,
    pub channel_id: Seq<char>,
    pub counterparty: ChannelEndView,
    pub connection_id: Seq<char>,
    pub client_id: Seq<char>,
}

impl View for ChannelDescriptor {
    type V = ChannelDescriptorView;

    open spec fn view(&self) -> ChannelDescriptorView {
        ChannelDescriptorView {
            port_id: self.port_id@,
            channel_id: self.channel_id@,
            counterparty: self.counterparty@,
            connection_id: self.connection_id@,
            client_id: self.client_id@,
        }
    }
}

impl Clone for ChannelDescriptor {
    fn clone(&self) -> (copy: Self)
        ensures
            copy == *self,
    {
        ChannelDescriptor {
            port_id: self.port_id.clone(),
            channel_id: self.channel_id.clone(),
            counterparty: self.counterparty.clone(),
            connection_id: self.connection_id.clone(),
            client_id: self.client_id.clone(),
        }
    }
}

} // verus!

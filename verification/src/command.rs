//! The query for the unreceived acknowledgements of one channel end.

use vstd::prelude::*;

use crate::channel::{ChainId, ChannelEnd, ChannelEndView, ChannelId, PortId};
use crate::model;
use crate::resolver::{Query, Resolver};

verus! {

/// Asks which acknowledgements the chain `chain_id` has not received yet on
/// the channel `channel_id` of its port `port_id`.
///
/// Answering it takes three steps: the chain is asked for the channel, to
/// learn the counterparty's chain, port and channel; the chain is asked for
/// the sequences of its pending commitments on the channel; the counterparty
/// is asked which of those it has acknowledged.
#[derive(Debug, PartialEq)]
pub struct QueryUnreceivedAcknowledgementCmd {
    chain_id: ChainId,
    port_id: PortId,
    channel_id: ChannelId,
}

/// The channel end that the query is about.
impl View for QueryUnreceivedAcknowledgementCmd {
    type V = ChannelEndView;

    closed spec fn view(&self) -> ChannelEndView {
        ChannelEndView {
            chain_id: self.chain_id@,
            port_id: self.port_id@,
            channel_id: self.channel_id@,
        }
    }
}

impl Clone for QueryUnreceivedAcknowledgementCmd {
    fn clone(&self) -> (copy: Self)
        ensures
            copy@ == self@,
    {
        QueryUnreceivedAcknowledgementCmd {
            chain_id: self.chain_id.clone(),
            port_id: self.port_id.clone(),
            channel_id: self.channel_id.clone(),
        }
    }
}

impl QueryUnreceivedAcknowledgementCmd {
    /// The query about the given channel end.
    pub fn new(chain_id: ChainId, port_id: PortId, channel_id: ChannelId) -> (cmd: Self)
        ensures
            cmd@ == (ChannelEndView {
                chain_id: chain_id@,
                port_id: port_id@,
                channel_id: channel_id@,
            }),
    {
        QueryUnreceivedAcknowledgementCmd { chain_id, port_id, channel_id }
    }

    /// The channel end that the query is about.
    pub fn source(&self) -> (end: ChannelEnd)
        ensures
            end@ == self@,
    {
        ChannelEnd {
            chain_id: self.chain_id.clone(),
            port_id: self.port_id.clone(),
            channel_id: self.channel_id.clone(),
        }
    }

    /// Begins the resolution: gives the resolver and the first query, which
    /// asks the chain for the channel.
    pub fn begin(&self) -> (first: (Resolver, Query))
        ensures
            (first.0@, first.1@) == model::start(self@, None),
    {
        Resolver::start(self.source(), None)
    }
}

} // verus!

//! The resolver: which query comes next, and what a reply leads to.
//!
//! The resolver does not talk to a chain. `Resolver::start` gives the first
//! query; the caller puts it to the chain that its channel end names and
//! hands the reply to `Resolver::advance`, which gives the next query or the
//! result. A resolution may be abandoned between any two queries by dropping
//! the resolver.

use vstd::prelude::*;

use crate::channel::{ChannelDescriptor, ChannelEnd};
use crate::error::{ResolveError, ResolveErrorView};
use crate::model;
use crate::model::{OutcomeView, QueryView, ReplyView, ResolverView};
use crate::sequence::{
    is_ascending, AcknowledgementPresenceSet, CommitmentSet, Sequence, SequenceSet,
    UnreceivedAckResult,
};

verus! {

/// A query for the caller to put to a chain.
#[derive(Debug, PartialEq, Eq)]
pub enum Query {
    /// Describe the channel at this end.
    LocateChannel(ChannelEnd),
    /// List the sequences with a pending commitment at this end.
    PendingCommitments(ChannelEnd),
    /// Of the candidates, list those with a written acknowledgement at this
    /// end. The candidates go out in one batch, ascending.
    AcknowledgementPresence { end: ChannelEnd, candidates: Vec<Sequence> },
}

/// What the chain gave back.
#[derive(Debug, PartialEq, Eq)]
pub enum Reply {
    /// The channel that was asked for.
    Channel(ChannelDescriptor),
    /// The sequences with a pending commitment, as the chain lists them.
    Commitments(Vec<Sequence>),
    /// The sequences with a written acknowledgement, as the chain lists
    /// them.
    Acknowledgements(Vec<Sequence>),
    /// The query failed.
    Failed(ResolveError),
}

/// A resolution under way.
#[derive(Debug, PartialEq, Eq)]
pub enum Resolver {
    Locating { source: ChannelEnd },
    Fetching { channel: ChannelDescriptor },
    CrossReferencing { commitments: CommitmentSet },
}

/// What a reply leads to.
#[derive(Debug, PartialEq, Eq)]
pub enum Outcome {
    /// Another query has to be made.
    Continue(Resolver, Query),
    /// The resolution is over.
    Finished(Result<UnreceivedAckResult, ResolveError>),
}

impl View for Query {
    type V = QueryView;

    open spec fn view(&self) -> QueryView {
        match self {
            Query::LocateChannel(end) => QueryView::LocateChannel(end@),
            Query::PendingCommitments(end) => QueryView::PendingCommitments(end@),
            Query::AcknowledgementPresence { end, candidates } => QueryView::AcknowledgementPresence {
                end: end@,
                candidates: candidates@,
            },
        }
    }
}

impl View for Reply {
    type V = ReplyView;

    open spec fn view(&self) -> ReplyView {
        match self {
            Reply::Channel(channel) => ReplyView::Channel(channel@),
            Reply::Commitments(records) => ReplyView::Commitments(records@),
            Reply::Acknowledgements(reported) => ReplyView::Acknowledgements(reported@),
            Reply::Failed(error) => ReplyView::Failed(error@),
        }
    }
}

impl View for Resolver {
    type V = ResolverView;

    open spec fn view(&self) -> ResolverView {
        match self {
            Resolver::Locating { source } => ResolverView::Locating { source: source@ },
            Resolver::Fetching { channel } => ResolverView::Fetching { channel: channel@ },
            Resolver::CrossReferencing { commitments } => ResolverView::CrossReferencing {
                commitments: commitments@,
            },
        }
    }
}

impl View for Outcome {
    type V = OutcomeView;

    open spec fn view(&self) -> OutcomeView {
        match self {
            Outcome::Continue(resolver, query) => OutcomeView::Continue(resolver@, query@),
            Outcome::Finished(Ok(sequences)) => OutcomeView::Finished(Ok(sequences@)),
            Outcome::Finished(Err(error)) => OutcomeView::Finished(Err(error@)),
        }
    }
}

impl Query {
    /// The channel end that the query is addressed to: its chain is the one
    /// to ask.
    pub fn end(&self) -> (end: &ChannelEnd)
        ensures
            end@ == self@.end(),
    {
        match self {
            Query::LocateChannel(end) => end,
            Query::PendingCommitments(end) => end,
            Query::AcknowledgementPresence { end, .. } => end,
        }
    }

    /// The reply to give when the chain could not be reached or did not
    /// answer in time: the failure names the chain that was asked.
    pub fn unreachable(&self) -> (reply: Reply)
        ensures
            reply@ == ReplyView::Failed(
                ResolveErrorView::EndpointUnreachable { chain_id: self@.end().chain_id },
            ),
    {
        Reply::Failed(ResolveError::EndpointUnreachable { chain_id: self.end().chain_id.clone() })
    }
}

/// Gathers the sequences that a chain lists as pending commitments into a
/// set. Order and repetition in the listing do not matter.
pub fn commitment_set(records: &Vec<Sequence>) -> (commitments: CommitmentSet)
    ensures
        commitments@ == records@.to_set(),
{
    SequenceSet::collect(records)
}

/// The candidates that the destination confirms: those that it reports
/// present. A reported sequence that is no candidate is dropped, and a
/// candidate that is not reported is no error: its acknowledgement has not
/// been written yet.
pub fn acknowledged(candidates: &CommitmentSet, reported: &Vec<Sequence>) -> (presence:
    AcknowledgementPresenceSet)
    ensures
        presence@ == model::acknowledged(candidates@, reported@.to_set()),
{
    let reported = SequenceSet::collect(reported);
    candidates.intersection(&reported)
}

/// The unreceived acknowledgements: the sequences that are both in
/// `commitments` and in `presence`, in ascending order.
pub fn unreceived(commitments: &CommitmentSet, presence: &AcknowledgementPresenceSet) -> (result:
    UnreceivedAckResult)
    ensures
        result@ == model::unreceived(commitments@, presence@),
        is_ascending(result@),
        result@.no_duplicates(),
        result@.to_set() == commitments@.intersect(presence@),
        result@.to_set().subset_of(commitments@),
{
    commitments.intersection(presence).into_vec()
}

impl Resolver {
    /// Begins a resolution for the channel end `source`. The first query
    /// locates the channel, unless the caller already knows it: then the
    /// first query is for the source's pending commitments.
    pub fn start(source: ChannelEnd, known: Option<ChannelDescriptor>) -> (first: (Resolver, Query))
        ensures
            (first.0@, first.1@) == model::start(
                source@,
                match known {
                    Some(channel) => Some(channel@),
                    None => None,
                },
            ),
    {
        match known {
            Some(channel) => (Resolver::Fetching { channel }, Query::PendingCommitments(source)),
            None => {
                let query = Query::LocateChannel(source.clone());
                (Resolver::Locating { source }, query)
            },
        }
    }

    /// Takes the reply to the outstanding query and says what follows.
    ///
    /// A failure ends the resolution with that failure, and so does a reply
    /// that is not of the kind that the outstanding query asks for: it is
    /// malformed. Without pending commitments the resolution ends with the
    /// empty result, and the destination is not asked.
    pub fn advance(self, reply: Reply) -> (outcome: Outcome)
        ensures
            outcome@ == model::advance(self@, reply@),
    {
        match (self, reply) {
            (_, Reply::Failed(error)) => Outcome::Finished(Err(error)),
            (Resolver::Locating { source }, Reply::Channel(channel)) => Outcome::Continue(
                Resolver::Fetching { channel },
                Query::PendingCommitments(source),
            ),
            (Resolver::Fetching { channel }, Reply::Commitments(records)) => {
                let commitments = commitment_set(&records);
                if commitments.is_empty() {
                    Outcome::Finished(Ok(Vec::new()))
                } else {
                    let candidates = commitments.to_vec();
                    Outcome::Continue(
                        Resolver::CrossReferencing { commitments },
                        Query::AcknowledgementPresence { end: channel.counterparty, candidates },
                    )
                }
            },
            (Resolver::CrossReferencing { commitments }, Reply::Acknowledgements(reported)) => {
                let presence = acknowledged(&commitments, &reported);
                Outcome::Finished(Ok(unreceived(&commitments, &presence)))
            },
            _ => Outcome::Finished(Err(ResolveError::MalformedResponse)),
        }
    }
}

} // verus!

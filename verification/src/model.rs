//! The resolver as mathematics: its states, the queries it asks, the replies
//! it takes, and the step from one state to the next.
//!
//! The executable resolver is proved to take exactly these steps.

use vstd::prelude::*;

use crate::channel::{ChannelDescriptorView, ChannelEndView};
use crate::error::ResolveErrorView;
use crate::sequence::sorted;

verus! {

/// A query that the resolver asks of a chain.
pub enum QueryView {
    /// Describe the channel at this end.
    LocateChannel(ChannelEndView),
    /// List the sequences with a pending commitment at this end.
    PendingCommitments(ChannelEndView),
    /// Of the candidates, list those with a written acknowledgement at this
    /// end.
    AcknowledgementPresence { end: ChannelEndView, candidates: Seq<u64> },
}

impl QueryView {
    /// The channel end that the query is addressed to.
    pub open spec fn end(self) -> ChannelEndView {
        match self {
            QueryView::LocateChannel(end) => end,
            QueryView::PendingCommitments(end) => end,
            QueryView::AcknowledgementPresence { end, .. } => end,
        }
    }
}

/// What came back for a query.
pub enum ReplyView {
    /// The channel that was asked for.
    Channel(ChannelDescriptorView),
    /// The sequences with a pending commitment, as the chain lists them.
    Commitments(Seq<u64>),
    /// The sequences with a written acknowledgement, as the chain lists
    /// them.
    Acknowledgements(Seq<u64>),
    /// The query failed.
    Failed(ResolveErrorView),
}

/// Where a resolution stands. In each state one query is outstanding.
pub enum ResolverView {
    /// The channel has been asked for.
    Locating { source: ChannelEndView },
    /// The source's pending commitments have been asked for.
    Fetching { channel: ChannelDescriptorView },
    /// The destination has been asked which of the commitments it has
    /// acknowledged.
    CrossReferencing { commitments: Set<u64> },
}

/// What a step leads to: another query, or the end of the resolution.
pub enum OutcomeView {
    Continue(ResolverView, QueryView),
    Finished(Result<Seq<u64>, ResolveErrorView>),
}

/// The candidates that the destination confirms: those that were asked about
/// and are reported present. What is reported without having been asked
/// about is dropped.
pub open spec fn acknowledged(candidates: Set<u64>, reported: Set<u64>) -> Set<u64> {
    candidates.intersect(reported)
}

/// The unreceived acknowledgements: the sequences with a pending commitment
/// on the source and an acknowledgement on the destination, ascending.
pub open spec fn unreceived(commitments: Set<u64>, presence: Set<u64>) -> Seq<u64> {
    sorted(commitments.intersect(presence))
}

/// The first state and query of a resolution for the channel end `source`.
/// With the channel already known, locating it is skipped.
pub open spec fn start(source: ChannelEndView, known: Option<ChannelDescriptorView>) -> (
    ResolverView,
    QueryView,
) {
    match known {
        Some(channel) => (ResolverView::Fetching { channel }, QueryView::PendingCommitments(source)),
        None => (ResolverView::Locating { source }, QueryView::LocateChannel(source)),
    }
}

/// The step that `reply` causes in `state`.
///
/// A failure ends the resolution with that failure. A reply of another kind
/// than the outstanding query asks for ends it as malformed. No commitments
/// end it with the empty result, and the destination is not asked.
pub open spec fn advance(state: ResolverView, reply: ReplyView) -> OutcomeView {
    match (state, reply) {
        (_, ReplyView::Failed(error)) => OutcomeView::Finished(Err(error)),
        (ResolverView::Locating { source }, ReplyView::Channel(channel)) => OutcomeView::Continue(
            ResolverView::Fetching { channel },
            QueryView::PendingCommitments(source),
        ),
        (ResolverView::Fetching { channel }, ReplyView::Commitments(records)) => {
            let commitments = records.to_set();
            if commitments.is_empty() {
                OutcomeView::Finished(Ok(Seq::empty()))
            } else {
                OutcomeView::Continue(
                    ResolverView::CrossReferencing { commitments },
                    QueryView::AcknowledgementPresence {
                        end: channel.counterparty,
                        candidates: sorted(commitments),
                    },
                )
            }
        },
        (ResolverView::CrossReferencing { commitments }, ReplyView::Acknowledgements(reported)) => {
            OutcomeView::Finished(
                Ok(unreceived(commitments, acknowledged(commitments, reported.to_set()))),
            )
        },
        _ => OutcomeView::Finished(Err(ResolveErrorView::MalformedResponse)),
    }
}

} // verus!

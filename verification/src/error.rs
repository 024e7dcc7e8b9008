//! The ways in which a resolution fails.

use vstd::prelude::*;

use crate::channel::ChainId;

verus! {

/// Why a resolution ended without a result. Each of them ends the attempt:
/// nothing is retried and no partial result is given.
#[derive(Debug, PartialEq, Eq)]
pub enum ResolveError {
    /// The queried chain has no record of the named port and channel.
    ChannelNotFound,
    /// The chain could not be reached, or did not answer in time.
    EndpointUnreachable { chain_id: ChainId },
    /// The chain answered, but not with what the query asks for.
    MalformedResponse,
}

/// What a `ResolveError` says.
pub enum ResolveErrorView {
    ChannelNotFound,
    EndpointUnreachable { chain_id: Seq<char> },
    MalformedResponse,
}

impl View for ResolveError {
    type V = ResolveErrorView;

    open spec fn view(&self) -> ResolveErrorView {
        match self {
            ResolveError::ChannelNotFound => ResolveErrorView::ChannelNotFound,
            ResolveError::EndpointUnreachable { chain_id } => ResolveErrorView::EndpointUnreachable {
                chain_id: chain_id@,
            },
            ResolveError::MalformedResponse => ResolveErrorView::MalformedResponse,
        }
    }
}

impl Clone for ResolveError {
    fn clone(&self) -> (copy: Self)
        ensures
            copy == *self,
    {
        match self {
            ResolveError::ChannelNotFound => ResolveError::ChannelNotFound,
            ResolveError::EndpointUnreachable { chain_id } => ResolveError::EndpointUnreachable {
                chain_id: chain_id.clone(),
            },
            ResolveError::MalformedResponse => ResolveError::MalformedResponse,
        }
    }
}

} // verus!

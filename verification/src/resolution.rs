//! Whole resolutions: what follows when every query of the resolver is
//! answered, and what holds of the result whatever the chains answer.

use vstd::prelude::*;

use crate::channel::{ChannelDescriptorView, ChannelEndView};
use crate::error::ResolveErrorView;
use crate::model::{
    acknowledged, advance, start, unreceived, OutcomeView, QueryView, ReplyView, ResolverView,
};
use crate::sequence::{is_ascending, lemma_sorted_lists, sorted};

verus! {

/// How many replies a resolver in `state` takes at most before it ends.
pub open spec fn remaining(state: ResolverView) -> nat {
    match state {
        ResolverView::Locating { .. } => 3,
        ResolverView::Fetching { .. } => 2,
        ResolverView::CrossReferencing { .. } => 1,
    }
}

/// A whole resolution: the queries that were asked, in order, and how it
/// ended.
pub struct Run {
    pub queries: Seq<QueryView>,
    pub result: Result<Seq<u64>, ResolveErrorView>,
}

/// The resolution that unfolds from `state` with `query` outstanding, when
/// each query is answered by `answer`.
pub open spec fn run(state: ResolverView, query: QueryView, answer: spec_fn(QueryView) -> ReplyView)
    -> Run
    decreases remaining(state),
{
    match advance(state, answer(query)) {
        OutcomeView::Finished(result) => Run { queries: seq![query], result },
        OutcomeView::Continue(next, next_query) => {
            let rest = run(next, next_query, answer);
            Run { queries: seq![query] + rest.queries, result: rest.result }
        },
    }
}

/// The resolution for the channel end `source` from its first query on.
pub open spec fn resolve(
    source: ChannelEndView,
    known: Option<ChannelDescriptorView>,
    answer: spec_fn(QueryView) -> ReplyView,
) -> Run {
    run(start(source, known).0, start(source, known).1, answer)
}

/// What the two chains hold, as far as a resolution can see it. Each part is
/// either there or cannot be had, for the reason given.
pub struct Ledgers {
    /// The channel at the source end.
    pub channel: Result<ChannelDescriptorView, ResolveErrorView>,
    /// The sequences with a pending commitment on the source.
    pub commitments: Result<Set<u64>, ResolveErrorView>,
    /// The sequences with a written acknowledgement on the destination.
    pub acknowledgements: Result<Set<u64>, ResolveErrorView>,
}

/// `answer` replies as chains that hold `ledgers` do.
///
/// A listing may come in any order and with repetitions. Of the
/// acknowledgements a chain has to report exactly those among the
/// candidates; whether it also reports others is left open.
pub open spec fn answers_for(
    answer: spec_fn(QueryView) -> ReplyView,
    source: ChannelEndView,
    ledgers: Ledgers,
) -> bool {
    &&& match ledgers.channel {
        Ok(channel) => answer(QueryView::LocateChannel(source)) == ReplyView::Channel(channel),
        Err(error) => answer(QueryView::LocateChannel(source)) == ReplyView::Failed(error),
    }
    &&& match ledgers.commitments {
        Ok(commitments) => answer(QueryView::PendingCommitments(source)) matches ReplyView::Commitments(
            records,
        ) && records.to_set() == commitments,
        Err(error) => answer(QueryView::PendingCommitments(source)) == ReplyView::Failed(error),
    }
    &&& forall|end: ChannelEndView, candidates: Seq<u64>|
        match ledgers.acknowledgements {
            Ok(acknowledgements) => #[trigger] answer(
                QueryView::AcknowledgementPresence { end, candidates },
            ) matches ReplyView::Acknowledgements(reported) && reported.to_set().intersect(
                candidates.to_set(),
            ) == acknowledgements.intersect(candidates.to_set()),
            Err(error) => answer(QueryView::AcknowledgementPresence { end, candidates })
                == ReplyView::Failed(error),
        }
}

/// The replies of chains that hold `ledgers` and list everything ascending.
pub open spec fn plain_answer(ledgers: Ledgers) -> spec_fn(QueryView) -> ReplyView {
    |query: QueryView|
        match query {
            QueryView::LocateChannel(_) => match ledgers.channel {
                Ok(channel) => ReplyView::Channel(channel),
                Err(error) => ReplyView::Failed(error),
            },
            QueryView::PendingCommitments(_) => match ledgers.commitments {
                Ok(commitments) => ReplyView::Commitments(sorted(commitments)),
                Err(error) => ReplyView::Failed(error),
            },
            QueryView::AcknowledgementPresence { candidates, .. } => match ledgers.acknowledgements {
                Ok(acknowledgements) => ReplyView::Acknowledgements(
                    sorted(acknowledgements.intersect(candidates.to_set())),
                ),
                Err(error) => ReplyView::Failed(error),
            },
        }
}

/// Chains with finitely many pending commitments can be answered for: what
/// is proved of all answers for some ledgers is proved of something.
pub proof fn lemma_plain_answer(source: ChannelEndView, ledgers: Ledgers)
    requires
        ledgers.commitments matches Ok(commitments) ==> commitments.finite(),
    ensures
        answers_for(plain_answer(ledgers), source, ledgers),
{
    let answer = plain_answer(ledgers);
    if let Ok(commitments) = ledgers.commitments {
        lemma_sorted_lists(commitments);
    }
    assert forall|end: ChannelEndView, candidates: Seq<u64>|
        match ledgers.acknowledgements {
            Ok(acknowledgements) => #[trigger] answer(
                QueryView::AcknowledgementPresence { end, candidates },
            ) matches ReplyView::Acknowledgements(reported) && reported.to_set().intersect(
                candidates.to_set(),
            ) == acknowledgements.intersect(candidates.to_set()),
            Err(error) => answer(QueryView::AcknowledgementPresence { end, candidates })
                == ReplyView::Failed(error),
        } by {
        if let Ok(acknowledgements) = ledgers.acknowledgements {
            let among = acknowledgements.intersect(candidates.to_set());
            vstd::seq_lib::seq_to_set_is_finite(candidates);
            vstd::set_lib::lemma_len_intersect(candidates.to_set(), acknowledgements);
            lemma_sorted_lists(among);
        }
    }
}

/// What a resolution over `ledgers` has to give: the first failure on the
/// way, or the sequences that are both pending on the source and
/// acknowledged on the destination, ascending. With nothing pending the
/// destination's ledger does not matter.
pub open spec fn resolution(ledgers: Ledgers) -> Result<Seq<u64>, ResolveErrorView> {
    match ledgers.channel {
        Err(error) => Err(error),
        Ok(_) => match ledgers.commitments {
            Err(error) => Err(error),
            Ok(commitments) => if commitments.is_empty() {
                Ok(Seq::empty())
            } else {
                match ledgers.acknowledgements {
                    Err(error) => Err(error),
                    Ok(acknowledgements) => Ok(unreceived(commitments, acknowledgements)),
                }
            },
        },
    }
}

/// The result is the ascending listing of what is both committed and
/// acknowledged, and every sequence in it is a commitment.
pub proof fn lemma_unreceived_is_sorted_intersection(commitments: Set<u64>, presence: Set<u64>)
    requires
        commitments.finite(),
    ensures
        is_ascending(unreceived(commitments, presence)),
        unreceived(commitments, presence).no_duplicates(),
        unreceived(commitments, presence).to_set() == commitments.intersect(presence),
        unreceived(commitments, presence).to_set().subset_of(commitments),
{
    let common = commitments.intersect(presence);
    vstd::set_lib::lemma_len_intersect(commitments, presence);
    lemma_sorted_lists(common);
}

/// A resolution gives what the ledgers determine: the first failure on the
/// way, or the ascending listing of the sequences that are both pending on
/// the source and acknowledged on the destination. How the chains order or
/// repeat the sequences in their replies makes no difference.
pub proof fn lemma_resolve_gives_resolution(
    source: ChannelEndView,
    known: Option<ChannelDescriptorView>,
    answer: spec_fn(QueryView) -> ReplyView,
    ledgers: Ledgers,
)
    requires
        answers_for(answer, source, ledgers),
        known matches Some(channel) ==> ledgers.channel == Ok::<_, ResolveErrorView>(channel),
    ensures
        resolve(source, known, answer).result == resolution(ledgers),
{
    reveal_with_fuel(run, 4);
    if let (Ok(channel), Ok(commitments)) = (ledgers.channel, ledgers.commitments) {
        if !commitments.is_empty() {
            let records = answer(QueryView::PendingCommitments(source))->Commitments_0;
            vstd::seq_lib::seq_to_set_is_finite(records);
            lemma_sorted_lists(commitments);
            let asked = QueryView::AcknowledgementPresence {
                end: channel.counterparty,
                candidates: sorted(commitments),
            };
            if let Ok(acknowledgements) = ledgers.acknowledgements {
                let reported = answer(asked)->Acknowledgements_0.to_set();
                assert forall|x: u64|
                    commitments.intersect(acknowledged(commitments, reported)).contains(x)
                        <==> commitments.intersect(acknowledgements).contains(x) by {
                    assert(reported.intersect(commitments).contains(x)
                        <==> acknowledgements.intersect(commitments).contains(x));
                }
                assert(commitments.intersect(acknowledged(commitments, reported))
                    =~= commitments.intersect(acknowledgements));
            }
        }
    }
}

/// Two resolutions against chains that hold the same give the same result.
pub proof fn lemma_resolution_repeatable(
    source: ChannelEndView,
    known: Option<ChannelDescriptorView>,
    first: spec_fn(QueryView) -> ReplyView,
    second: spec_fn(QueryView) -> ReplyView,
    ledgers: Ledgers,
)
    requires
        answers_for(first, source, ledgers),
        answers_for(second, source, ledgers),
        known matches Some(channel) ==> ledgers.channel == Ok::<_, ResolveErrorView>(channel),
    ensures
        resolve(source, known, first).result == resolve(source, known, second).result,
{
    lemma_resolve_gives_resolution(source, known, first, ledgers);
    lemma_resolve_gives_resolution(source, known, second, ledgers);
}

/// With nothing pending on the source the result is empty, and the
/// destination is not asked: the commitment query is the last one.
pub proof fn lemma_nothing_pending(
    source: ChannelEndView,
    known: Option<ChannelDescriptorView>,
    answer: spec_fn(QueryView) -> ReplyView,
)
    requires
        known is None ==> answer(QueryView::LocateChannel(source)) is Channel,
        answer(QueryView::PendingCommitments(source)) matches ReplyView::Commitments(records)
            && records.to_set().is_empty(),
    ensures
        resolve(source, known, answer).result == Ok::<Seq<u64>, ResolveErrorView>(Seq::empty()),
        resolve(source, known, answer).queries.last() == QueryView::PendingCommitments(source),
        forall|i: int|
            0 <= i < resolve(source, known, answer).queries.len() ==> !(resolve(
                source,
                known,
                answer,
            ).queries[i] is AcknowledgementPresence),
{
    reveal_with_fuel(run, 4);
}

/// The queries of a resolution that meets no failure and finds commitments
/// pending: the channel and then the pending commitments are asked of the
/// source end, the acknowledgements of the channel's counterparty end, with
/// all commitments as candidates in one batch.
pub open spec fn queries_in_full(
    source: ChannelEndView,
    channel: ChannelDescriptorView,
    commitments: Set<u64>,
) -> Seq<QueryView> {
    seq![
        QueryView::LocateChannel(source),
        QueryView::PendingCommitments(source),
        QueryView::AcknowledgementPresence {
            end: channel.counterparty,
            candidates: sorted(commitments),
        },
    ]
}

/// The queries come in a fixed order and none is asked twice: what a
/// resolution asks is a stretch of `queries_in_full`. It begins with the
/// first of them, or with the second where the channel is known, and it ends
/// where the resolution ends.
pub proof fn lemma_queries_in_order(
    source: ChannelEndView,
    known: Option<ChannelDescriptorView>,
    answer: spec_fn(QueryView) -> ReplyView,
)
    ensures
        ({
            let asked = resolve(source, known, answer).queries;
            let skipped: int = if known is Some { 1 } else { 0 };
            let channel = match known {
                Some(channel) => channel,
                None => answer(QueryView::LocateChannel(source))->Channel_0,
            };
            let records = answer(QueryView::PendingCommitments(source))->Commitments_0;
            &&& 1 <= asked.len() <= 3 - skipped
            &&& asked == queries_in_full(source, channel, records.to_set()).subrange(
                skipped,
                skipped + asked.len(),
            )
        }),
{
    reveal_with_fuel(run, 4);
}

/// Every failure ends the resolution at once: a query that fails is the last
/// one asked, and its failure is the result.
pub proof fn lemma_failure_ends(
    source: ChannelEndView,
    known: Option<ChannelDescriptorView>,
    answer: spec_fn(QueryView) -> ReplyView,
    i: int,
)
    requires
        0 <= i < resolve(source, known, answer).queries.len(),
        answer(resolve(source, known, answer).queries[i]) is Failed,
    ensures
        i == resolve(source, known, answer).queries.len() - 1,
        resolve(source, known, answer).result == Err::<Seq<u64>, ResolveErrorView>(
            answer(resolve(source, known, answer).queries[i])->Failed_0,
        ),
{
    reveal_with_fuel(run, 4);
}

/// Whatever the chains answer, a result is ascending and repeats nothing.
pub proof fn lemma_result_ascending(
    source: ChannelEndView,
    known: Option<ChannelDescriptorView>,
    answer: spec_fn(QueryView) -> ReplyView,
)
    ensures
        resolve(source, known, answer).result matches Ok(sequences) ==> is_ascending(sequences)
            && sequences.no_duplicates(),
{
    reveal_with_fuel(run, 4);
    let (state, query) = start(source, known);
    let after_locating = if known is None {
        advance(state, answer(query))
    } else {
        OutcomeView::Continue(state, query)
    };
    if let OutcomeView::Continue(fetching, fetch) = after_locating {
        if let OutcomeView::Continue(crossing, ask) = advance(fetching, answer(fetch)) {
            let records = answer(fetch)->Commitments_0;
            vstd::seq_lib::seq_to_set_is_finite(records);
            if let ReplyView::Acknowledgements(reported) = answer(ask) {
                lemma_unreceived_is_sorted_intersection(
                    records.to_set(),
                    acknowledged(records.to_set(), reported.to_set()),
                );
            }
        }
    }
}

} // verus!

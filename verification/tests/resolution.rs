//! Whole resolutions against two chains that are stood in for by test
//! doubles which count the queries they get.

use unreceived_acks::channel::{
    ChainId, ChannelDescriptor, ChannelEnd, ChannelId, ClientId, ConnectionId, PortId,
};
use unreceived_acks::command::QueryUnreceivedAcknowledgementCmd;
use unreceived_acks::error::ResolveError;
use unreceived_acks::resolver::{Outcome, Query, Reply, Resolver};
use unreceived_acks::sequence::SequenceSet;

struct Chain {
    id: ChainId,
    channel: Result<ChannelDescriptor, ResolveError>,
    commitments: Result<Vec<u64>, ResolveError>,
    acknowledgements: Result<Vec<u64>, ResolveError>,
    /// Whether the chain lists every acknowledgement it holds, or only those
    /// among the candidates.
    lists_all: bool,
    located: usize,
    fetched: usize,
    cross_referenced: usize,
    last_candidates: Vec<u64>,
}

impl Chain {
    fn new(id: &str) -> Chain {
        Chain {
            id: ChainId(id.to_string()),
            channel: Err(ResolveError::ChannelNotFound),
            commitments: Ok(vec![]),
            acknowledgements: Ok(vec![]),
            lists_all: false,
            located: 0,
            fetched: 0,
            cross_referenced: 0,
            last_candidates: vec![],
        }
    }

    fn answer(&mut self, query: &Query) -> Reply {
        assert_eq!(query.end().chain_id, self.id);
        match query {
            Query::LocateChannel(_) => {
                self.located += 1;
                match &self.channel {
                    Ok(channel) => Reply::Channel(channel.clone()),
                    Err(error) => Reply::Failed(error.clone()),
                }
            }
            Query::PendingCommitments(_) => {
                self.fetched += 1;
                match &self.commitments {
                    Ok(sequences) => Reply::Commitments(sequences.clone()),
                    Err(error) => Reply::Failed(error.clone()),
                }
            }
            Query::AcknowledgementPresence { candidates, .. } => {
                self.cross_referenced += 1;
                self.last_candidates = candidates.clone();
                match &self.acknowledgements {
                    Ok(sequences) => {
                        let mut listed = vec![];
                        for s in sequences {
                            if self.lists_all || candidates.contains(s) {
                                listed.push(*s);
                            }
                        }
                        Reply::Acknowledgements(listed)
                    }
                    Err(error) => Reply::Failed(error.clone()),
                }
            }
        }
    }

    fn queries(&self) -> usize {
        self.located + self.fetched + self.cross_referenced
    }
}

fn source_end() -> ChannelEnd {
    ChannelEnd {
        chain_id: ChainId("ibc-0".to_string()),
        port_id: PortId("transfer".to_string()),
        channel_id: ChannelId("channel-0".to_string()),
    }
}

fn destination_end() -> ChannelEnd {
    ChannelEnd {
        chain_id: ChainId("ibc-1".to_string()),
        port_id: PortId("transfer".to_string()),
        channel_id: ChannelId("channel-7".to_string()),
    }
}

fn descriptor() -> ChannelDescriptor {
    ChannelDescriptor {
        port_id: PortId("transfer".to_string()),
        channel_id: ChannelId("channel-0".to_string()),
        counterparty: destination_end(),
        connection_id: ConnectionId("connection-0".to_string()),
        client_id: ClientId("07-tendermint-0".to_string()),
    }
}

fn command() -> QueryUnreceivedAcknowledgementCmd {
    let end = source_end();
    QueryUnreceivedAcknowledgementCmd::new(end.chain_id, end.port_id, end.channel_id)
}

fn chains(commitments: Vec<u64>, acknowledgements: Vec<u64>) -> (Chain, Chain) {
    let mut source = Chain::new("ibc-0");
    source.channel = Ok(descriptor());
    source.commitments = Ok(commitments);
    let mut destination = Chain::new("ibc-1");
    destination.acknowledgements = Ok(acknowledgements);
    (source, destination)
}

/// Puts each query to the chain it names until the resolver is done.
fn drive(
    first: (Resolver, Query),
    source: &mut Chain,
    destination: &mut Chain,
) -> Result<Vec<u64>, ResolveError> {
    let (mut resolver, mut query) = first;
    loop {
        let reply = if query.end().chain_id == source.id {
            source.answer(&query)
        } else {
            destination.answer(&query)
        };
        match resolver.advance(reply) {
            Outcome::Continue(next, next_query) => {
                resolver = next;
                query = next_query;
            }
            Outcome::Finished(result) => return result,
        }
    }
}

#[test]
fn acknowledged_commitments_are_returned() {
    let (mut source, mut destination) = chains(vec![3, 5, 8], vec![5, 8]);
    let result = drive(command().begin(), &mut source, &mut destination);
    assert_eq!(result, Ok(vec![5, 8]));
    assert_eq!(source.located, 1);
    assert_eq!(source.fetched, 1);
    assert_eq!(source.cross_referenced, 0);
    assert_eq!(destination.cross_referenced, 1);
    assert_eq!(destination.queries(), 1);
    assert_eq!(destination.last_candidates, vec![3, 5, 8]);
}

#[test]
fn no_commitments_give_an_empty_result_without_asking_the_destination() {
    let (mut source, mut destination) = chains(vec![], vec![1, 2, 3]);
    let result = drive(command().begin(), &mut source, &mut destination);
    assert_eq!(result, Ok(vec![]));
    assert_eq!(source.located, 1);
    assert_eq!(source.fetched, 1);
    assert_eq!(destination.queries(), 0);
}

#[test]
fn no_acknowledgements_give_an_empty_result() {
    let (mut source, mut destination) = chains(vec![1, 2, 3], vec![]);
    let result = drive(command().begin(), &mut source, &mut destination);
    assert_eq!(result, Ok(vec![]));
    assert_eq!(destination.cross_referenced, 1);
    assert_eq!(destination.last_candidates, vec![1, 2, 3]);
}

#[test]
fn a_missing_channel_ends_the_resolution_before_the_fetch() {
    let (mut source, mut destination) = chains(vec![1, 2, 3], vec![1, 2, 3]);
    source.channel = Err(ResolveError::ChannelNotFound);
    let result = drive(command().begin(), &mut source, &mut destination);
    assert_eq!(result, Err(ResolveError::ChannelNotFound));
    assert_eq!(source.located, 1);
    assert_eq!(source.fetched, 0);
    assert_eq!(destination.queries(), 0);
}

#[test]
fn an_unreachable_source_ends_the_resolution_before_the_cross_reference() {
    let (mut source, mut destination) = chains(vec![], vec![1, 2, 3]);
    let unreachable = ResolveError::EndpointUnreachable { chain_id: ChainId("ibc-0".to_string()) };
    source.commitments = Err(unreachable.clone());
    let result = drive(command().begin(), &mut source, &mut destination);
    assert_eq!(result, Err(unreachable));
    assert_eq!(source.located, 1);
    assert_eq!(source.fetched, 1);
    assert_eq!(destination.queries(), 0);
}

#[test]
fn an_unreachable_channel_locator_is_reported_as_such() {
    let (mut source, mut destination) = chains(vec![1], vec![1]);
    let unreachable = ResolveError::EndpointUnreachable { chain_id: ChainId("ibc-0".to_string()) };
    source.channel = Err(unreachable.clone());
    let result = drive(command().begin(), &mut source, &mut destination);
    assert_eq!(result, Err(unreachable));
    assert_eq!(source.fetched, 0);
    assert_eq!(destination.queries(), 0);
}

#[test]
fn malformed_commitments_end_the_resolution() {
    let (mut source, mut destination) = chains(vec![], vec![1]);
    source.commitments = Err(ResolveError::MalformedResponse);
    let result = drive(command().begin(), &mut source, &mut destination);
    assert_eq!(result, Err(ResolveError::MalformedResponse));
    assert_eq!(destination.queries(), 0);
}

#[test]
fn an_unreachable_destination_fails_the_whole_resolution() {
    let (mut source, mut destination) = chains(vec![1, 2], vec![]);
    let unreachable = ResolveError::EndpointUnreachable { chain_id: ChainId("ibc-1".to_string()) };
    destination.acknowledgements = Err(unreachable.clone());
    let result = drive(command().begin(), &mut source, &mut destination);
    assert_eq!(result, Err(unreachable));
    assert_eq!(destination.cross_referenced, 1);
}

#[test]
fn malformed_acknowledgements_fail_the_whole_resolution() {
    let (mut source, mut destination) = chains(vec![1, 2], vec![]);
    destination.acknowledgements = Err(ResolveError::MalformedResponse);
    let result = drive(command().begin(), &mut source, &mut destination);
    assert_eq!(result, Err(ResolveError::MalformedResponse));
}

#[test]
fn result_is_the_sorted_intersection() {
    let (mut source, mut destination) =
        chains(vec![40, 7, 19, 7, 3, 22, 40], vec![100, 22, 3, 3, 41, 19]);
    destination.lists_all = true;
    let result = drive(command().begin(), &mut source, &mut destination);
    assert_eq!(result, Ok(vec![3, 19, 22]));
    assert_eq!(destination.last_candidates, vec![3, 7, 19, 22, 40]);
}

#[test]
fn result_is_a_subset_of_the_commitments() {
    let commitments = vec![9, 2, 4];
    let (mut source, mut destination) = chains(commitments.clone(), vec![1, 2, 3, 4, 5, 6]);
    destination.lists_all = true;
    let result = drive(command().begin(), &mut source, &mut destination).unwrap();
    assert_eq!(result, vec![2, 4]);
    for sequence in &result {
        assert!(commitments.contains(sequence));
    }
}

#[test]
fn result_is_strictly_ascending() {
    let (mut source, mut destination) =
        chains(vec![5, 5, 1, 9, 1, 3, u64::MAX, 0], vec![u64::MAX, 9, 9, 5, 0, 1, 3]);
    let result = drive(command().begin(), &mut source, &mut destination).unwrap();
    assert_eq!(result, vec![0, 1, 3, 5, 9, u64::MAX]);
    for pair in result.windows(2) {
        assert!(pair[0] < pair[1]);
    }
}

#[test]
fn resolving_twice_gives_the_same_result() {
    let (mut source, mut destination) = chains(vec![8, 3, 5], vec![8, 5, 13]);
    let first = drive(command().begin(), &mut source, &mut destination);
    let second = drive(command().begin(), &mut source, &mut destination);
    assert_eq!(first, Ok(vec![5, 8]));
    assert_eq!(first, second);
    assert_eq!(source.located, 2);
    assert_eq!(source.fetched, 2);
    assert_eq!(destination.cross_referenced, 2);
}

#[test]
fn the_order_of_the_listings_does_not_matter() {
    let (mut source, mut destination) = chains(vec![3, 5, 8], vec![5, 8]);
    let forward = drive(command().begin(), &mut source, &mut destination);
    let (mut source, mut destination) = chains(vec![8, 5, 3, 5], vec![8, 8, 5]);
    let backward = drive(command().begin(), &mut source, &mut destination);
    assert_eq!(forward, backward);
}

#[test]
fn a_known_channel_is_not_located_again() {
    let (mut source, mut destination) = chains(vec![3, 5, 8], vec![5, 8]);
    source.channel = Err(ResolveError::ChannelNotFound);
    let first = Resolver::start(source_end(), Some(descriptor()));
    assert_eq!(first.1, Query::PendingCommitments(source_end()));
    let result = drive(first, &mut source, &mut destination);
    assert_eq!(result, Ok(vec![5, 8]));
    assert_eq!(source.located, 0);
    assert_eq!(source.fetched, 1);
    assert_eq!(destination.cross_referenced, 1);
}

#[test]
fn the_first_query_locates_the_channel() {
    let (resolver, query) = command().begin();
    assert_eq!(query, Query::LocateChannel(source_end()));
    assert_eq!(resolver, Resolver::Locating { source: source_end() });
}

#[test]
fn commitments_are_asked_of_the_source_end() {
    let (resolver, _) = command().begin();
    match resolver.advance(Reply::Channel(descriptor())) {
        Outcome::Continue(next, query) => {
            assert_eq!(query, Query::PendingCommitments(source_end()));
            assert_eq!(next, Resolver::Fetching { channel: descriptor() });
        }
        Outcome::Finished(result) => panic!("ended with {:?}", result),
    }
}

#[test]
fn acknowledgements_are_asked_of_the_counterparty_end_in_one_batch() {
    let resolver = Resolver::Fetching { channel: descriptor() };
    match resolver.advance(Reply::Commitments(vec![8, 3, 5, 3])) {
        Outcome::Continue(_, query) => {
            assert_eq!(
                query,
                Query::AcknowledgementPresence { end: destination_end(), candidates: vec![3, 5, 8] }
            );
            assert_eq!(query.end(), &destination_end());
        }
        Outcome::Finished(result) => panic!("ended with {:?}", result),
    }
}

#[test]
fn a_reply_of_the_wrong_kind_is_malformed() {
    let malformed = Outcome::Finished(Err(ResolveError::MalformedResponse));

    let (locating, _) = command().begin();
    assert_eq!(locating.advance(Reply::Commitments(vec![1, 2])), malformed);
    let (locating, _) = command().begin();
    assert_eq!(locating.advance(Reply::Acknowledgements(vec![1, 2])), malformed);

    let fetching = Resolver::Fetching { channel: descriptor() };
    assert_eq!(fetching.advance(Reply::Channel(descriptor())), malformed);
    let fetching = Resolver::Fetching { channel: descriptor() };
    assert_eq!(fetching.advance(Reply::Acknowledgements(vec![1, 2])), malformed);

    let crossing = Resolver::CrossReferencing { commitments: SequenceSet::collect(&vec![1, 2]) };
    assert_eq!(crossing.advance(Reply::Channel(descriptor())), malformed);
    let crossing = Resolver::CrossReferencing { commitments: SequenceSet::collect(&vec![1, 2]) };
    assert_eq!(crossing.advance(Reply::Commitments(vec![1, 2])), malformed);
}

#[test]
fn a_failure_is_passed_on_from_every_state() {
    let unreachable = ResolveError::EndpointUnreachable { chain_id: ChainId("ibc-1".to_string()) };
    let (locating, _) = command().begin();
    assert_eq!(
        locating.advance(Reply::Failed(ResolveError::ChannelNotFound)),
        Outcome::Finished(Err(ResolveError::ChannelNotFound))
    );
    let fetching = Resolver::Fetching { channel: descriptor() };
    assert_eq!(
        fetching.advance(Reply::Failed(ResolveError::MalformedResponse)),
        Outcome::Finished(Err(ResolveError::MalformedResponse))
    );
    let fetching = Resolver::Fetching { channel: descriptor() };
    let crossing = match fetching.advance(Reply::Commitments(vec![4])) {
        Outcome::Continue(next, _) => next,
        Outcome::Finished(result) => panic!("ended with {:?}", result),
    };
    assert_eq!(
        crossing.advance(Reply::Failed(unreachable.clone())),
        Outcome::Finished(Err(unreachable))
    );
}

#[test]
fn an_unanswered_query_names_the_chain_that_was_asked() {
    let (_, locate) = command().begin();
    assert_eq!(
        locate.unreachable(),
        Reply::Failed(ResolveError::EndpointUnreachable { chain_id: ChainId("ibc-0".to_string()) })
    );
    let ask = Query::AcknowledgementPresence { end: destination_end(), candidates: vec![1] };
    assert_eq!(
        ask.unreachable(),
        Reply::Failed(ResolveError::EndpointUnreachable { chain_id: ChainId("ibc-1".to_string()) })
    );
}

#[test]
fn a_timeout_at_the_destination_is_an_unreachable_endpoint() {
    let (resolver, query) = Resolver::start(source_end(), Some(descriptor()));
    assert_eq!(query.end(), &source_end());
    let (crossing, ask) = match resolver.advance(Reply::Commitments(vec![2, 1])) {
        Outcome::Continue(next, ask) => (next, ask),
        Outcome::Finished(result) => panic!("ended with {:?}", result),
    };
    assert_eq!(
        crossing.advance(ask.unreachable()),
        Outcome::Finished(Err(ResolveError::EndpointUnreachable {
            chain_id: ChainId("ibc-1".to_string())
        }))
    );
}

#[test]
fn the_command_names_its_channel_end() {
    let cmd = QueryUnreceivedAcknowledgementCmd::new(
        ChainId("chain_id".to_string()),
        PortId("port_id".to_string()),
        ChannelId("channel-07".to_string()),
    );
    assert_eq!(
        cmd.source(),
        ChannelEnd {
            chain_id: ChainId("chain_id".to_string()),
            port_id: PortId("port_id".to_string()),
            channel_id: ChannelId("channel-07".to_string()),
        }
    );
    assert_eq!(cmd.clone(), cmd);
    assert_eq!(cmd.begin().1, Query::LocateChannel(cmd.source()));
}

#[test]
fn copies_of_channels_and_errors_equal_what_they_copy() {
    assert_eq!(descriptor().clone(), descriptor());
    assert_eq!(source_end().clone(), source_end());
    let unreachable = ResolveError::EndpointUnreachable { chain_id: ChainId("ibc-0".to_string()) };
    assert_eq!(unreachable.clone(), unreachable);
    assert_ne!(unreachable, ResolveError::MalformedResponse);
    assert_eq!(ResolveError::ChannelNotFound.clone(), ResolveError::ChannelNotFound);
    assert_eq!(ResolveError::MalformedResponse.clone(), ResolveError::MalformedResponse);
}

use odradek_acceptance::subject::groups::{
    consumer_group, describe_groups, heartbeat, join_group, leave_group, sync_group,
};
use odradek_acceptance::subject::log::{fetch, fetch_wait, list_offsets, produce, timestamp_search};
use odradek_acceptance::subject::offsets::{find_coordinator, offset_commit, offset_fetch};
use odradek_acceptance::subject::replies::{FetchedLog, ProducedPartition};
use odradek_acceptance::subject::requests::{
    AddOffsetsAsk, AddPartitionsAsk, CommitPartition, CommitTopic, ConsumerGroupAsk,
    CreateTopicsAsk, DeleteTopicsAsk, DescribeGroupsAsk, EndTxnAsk, FetchAsk, FetchPartition,
    FetchTopic, FindCoordinatorAsk, GivenAssignment, HeartbeatAsk, InitProducerIdAsk, JoinGroupAsk,
    LeaveGroupAsk, ListOffsetsAsk, ListPartition, ListTopic, MetadataAsk, NamedTopic, NewTopic,
    OffsetCommitAsk, OffsetFetchAsk, OffsetTopic, ProduceAsk, ProducePartition, ProduceTopic,
    Protocol, SyncGroupAsk, TxnOffsetTopic, TxnOffsetsAsk, TxnTopic,
};
use odradek_acceptance::subject::sasl::{
    authenticate, handshake, mangle_server_first, scram_iterations, token_text, token_use,
    SaslState, TokenUse,
};
use odradek_acceptance::subject::serve::{
    frame_payload, open_frame, serve, serves, Answer, Asked, Body, Request,
};
use odradek_acceptance::subject::state::{placement_over, ClusterState};
use odradek_acceptance::subject::topics::{
    advertised_keys, api_versions, create_topics, delete_topics, metadata, mint_topic_id,
};
use odradek_acceptance::subject::txn::{
    add_offsets, add_partitions, end_txn, init_producer_id, txn_offset_commit,
};
use odradek_acceptance::subject::{injected, Fault};
use odradek_acceptance::wire::{Record, RecordBatch, Records, Schema, Versions};

const NONE: i16 = 0;
const NOT_LEADER: i16 = 6;
const NOT_COORDINATOR: i16 = 16;

fn schema() -> Schema {
    let v = |min, max| Versions { min, max };
    Schema {
        produce: v(3, 13),
        fetch: v(4, 17),
        list_offsets: v(1, 10),
        metadata: v(0, 13),
        offset_commit: v(2, 10),
        offset_fetch: v(1, 10),
        find_coordinator: v(0, 6),
        join_group: v(0, 9),
        heartbeat: v(0, 4),
        leave_group: v(0, 5),
        sync_group: v(0, 5),
        describe_groups: v(0, 6),
        sasl_handshake: v(0, 1),
        api_versions: v(0, 4),
        create_topics: v(2, 7),
        delete_topics: v(1, 6),
        init_producer_id: v(0, 5),
        add_partitions_to_txn: v(0, 5),
        add_offsets_to_txn: v(0, 4),
        end_txn: v(0, 5),
        txn_offset_commit: v(0, 5),
        sasl_authenticate: v(0, 2),
        consumer_group_heartbeat: v(0, 1),
    }
}

fn cluster() -> ClusterState {
    ClusterState::new(vec![9001, 9002, 9003], vec![])
}

fn s(text: &str) -> String {
    text.to_owned()
}

fn create(state: &mut ClusterState, name: &str, factor: i16, validate_only: bool) -> i16 {
    let ask = CreateTopicsAsk {
        topics: vec![NewTopic { name: s(name), num_partitions: 1, replication_factor: factor }],
        validate_only,
    };
    create_topics(state, &ask, &vec![]).topics[0].error_code
}

fn record(timestamp_delta: i64, offset_delta: i32) -> Record {
    Record { timestamp_delta, offset_delta, key: None, value: None, headers: vec![] }
}

fn batch(producer_id: i64, producer_epoch: i16, base_sequence: i32, records: Vec<Record>) -> RecordBatch {
    RecordBatch {
        base_offset: 0,
        attributes: 0,
        last_offset_delta: records.len() as i32 - 1,
        base_timestamp: 1000,
        max_timestamp: 1000,
        producer_id,
        producer_epoch,
        base_sequence,
        records: Records::Plain(records),
    }
}

fn pair(producer_id: i64, producer_epoch: i16, base_sequence: i32) -> RecordBatch {
    batch(producer_id, producer_epoch, base_sequence, vec![record(0, 0), record(5, 1)])
}

fn write(
    state: &mut ClusterState,
    transactional_id: Option<&str>,
    name: &str,
    bytes: &[u8],
    batches: Option<Vec<RecordBatch>>,
    node_id: i32,
    faults: &Vec<Fault>,
) -> Option<ProducedPartition> {
    let ask = ProduceAsk {
        transactional_id: transactional_id.map(s),
        acks: -1,
        topics: vec![ProduceTopic {
            name: s(name),
            topic_id: [0; 16],
            partitions: vec![ProducePartition {
                index: 0,
                records: Some(bytes.to_vec()),
                batches,
                rewritten: None,
            }],
        }],
    };
    produce(state, &ask, node_id, faults).map(|r| r.responses[0].partitions[0].clone())
}

fn read(
    state: &ClusterState,
    name: &str,
    offset: i64,
    isolation_level: i8,
    faults: &Vec<Fault>,
) -> (i16, Option<FetchedLog>) {
    let ask = FetchAsk {
        max_wait_ms: 0,
        min_bytes: 0,
        isolation_level,
        topics: vec![FetchTopic {
            topic: s(name),
            topic_id: [0; 16],
            partitions: vec![FetchPartition { partition: 0, fetch_offset: offset }],
        }],
    };
    let mut reply = fetch(state, &ask, 12, 4, faults);
    let row = reply.responses.remove(0).partitions.remove(0);
    (row.error_code, row.log)
}

#[test]
fn every_fault_is_listed_once() {
    let all = Fault::all();
    assert_eq!(all.len(), 69);
    for (i, a) in all.iter().enumerate() {
        assert!(all[i + 1..].iter().all(|b| a != b));
    }
    assert!(injected(&vec![Fault::TrailingGarbage], Fault::TrailingGarbage));
    assert!(!injected(&vec![Fault::TrailingGarbage], Fault::FetchTrailingGarbage));
}

#[test]
fn topic_ids_go_by_the_name() {
    assert_eq!(mint_topic_id(""), [1, 0, 0, 0, 0, 0, 0, 0, 0, 0, 0, 0, 0, 0, 0, 0]);
    assert_eq!(
        mint_topic_id("odradek"),
        [145, 231, 127, 19, 36, 108, 26, 0, 0, 0, 0, 0, 0, 0, 0, 0]
    );
    assert_eq!(
        mint_topic_id("a-topic-name-longer-than-sixteen"),
        [219, 108, 158, 97, 42, 233, 158, 199, 25, 125, 154, 63, 39, 102, 205, 52]
    );
    assert_eq!(mint_topic_id("é")[..3], [229, 200, 0]);
}

#[test]
fn placement_hashes_the_key_over_the_live_nodes() {
    for (key, all, without_three, without_two) in
        [("", 3, 2, 3), ("a", 2, 1, 1), ("b", 2, 2, 3), ("c", 1, 1, 1), ("groups", 3, 2, 3)]
    {
        let mut state = cluster();
        assert_eq!(state.placement(key), all, "{key}");
        state.stop(3);
        assert_eq!(state.placement(key), without_three, "{key}");
        state.start(3);
        state.stop(2);
        assert_eq!(state.placement(key), without_two, "{key}");
    }
    assert_eq!(placement_over("a", &vec![]), 1);
}

#[test]
fn stopping_and_starting_is_undone() {
    let mut state = cluster();
    assert_eq!(state.node_ids(), vec![1, 2, 3]);
    state.stop(2);
    assert!(state.is_down(2));
    assert_eq!(state.live(), vec![1, 3]);
    state.start(2);
    assert!(!state.is_down(2));
    assert_eq!(state.live(), vec![1, 2, 3]);
    assert_eq!((state.port_of(1), state.port_of(3)), (9001, 9003));
}

#[test]
fn the_subject_advertises_what_it_serves() {
    let keys = advertised_keys(&schema());
    assert_eq!(keys[0].api_key, 18);
    assert_eq!(keys[1].api_key, 0);
    for row in &keys {
        assert!(serves(&schema(), row.api_key, row.min_version));
        assert!(serves(&schema(), row.api_key, row.max_version));
        assert_eq!(serves(&schema(), row.api_key, row.max_version + 1), row.api_key == 18);
    }
    assert!(!serves(&schema(), 99, 0));
    let reply = api_versions(&schema(), 5, &vec![]);
    assert_eq!((reply.error_code, reply.api_keys.len()), (35, keys.len()));
    assert_eq!(api_versions(&schema(), 4, &vec![]).error_code, NONE);
    let reply = api_versions(&schema(), 4, &vec![Fault::InvertedVersionRange]);
    assert_eq!((reply.api_keys[1].min_version, reply.api_keys[1].max_version), (12, 3));
    let reply = api_versions(&schema(), 5, &vec![Fault::AdvertiseWrongMaxInError]);
    assert_eq!(reply.api_keys[0].max_version, 5);
}

#[test]
fn topics_are_created_once_and_validated_for_free() {
    let mut state = cluster();
    assert_eq!(create(&mut state, "t", 4, false), 38);
    assert_eq!(create(&mut state, "t", 3, true), NONE);
    assert_eq!(create(&mut state, "t", 3, false), NONE);
    assert_eq!(create(&mut state, "t", 3, false), 36);
    let ask = MetadataAsk {
        topics: Some(vec![NamedTopic { name: Some(s("t")) }, NamedTopic { name: Some(s("u")) }]),
    };
    let reply = metadata(&state, &ask, 7, 1, &vec![]);
    assert_eq!(reply.brokers.len(), 3);
    assert_eq!(
        (reply.brokers[1].node_id, reply.brokers[1].host.as_str(), reply.brokers[1].port),
        (2, "127.0.0.1", 9002)
    );
    assert_eq!((reply.topics[0].error_code, reply.topics[1].error_code), (NONE, 3));
    assert_eq!(reply.topics[0].topic_id, mint_topic_id("t"));
    let leader = state.placement("t");
    assert_eq!(reply.topics[0].partitions[0].leader_id, leader);
    assert_eq!(reply.topics[0].partitions[0].replica_nodes[0], leader);
    assert_eq!(reply.topics[0].partitions[0].replica_nodes.len(), 3);
    // An absent list asks for no topic.
    assert_eq!(metadata(&state, &MetadataAsk { topics: None }, 7, 1, &vec![]).topics.len(), 0);
}

#[test]
fn an_omitted_unknown_topic_takes_no_known_one_with_it() {
    let mut state = cluster();
    create(&mut state, "t", 1, false);
    let ask = MetadataAsk {
        topics: Some(vec![NamedTopic { name: Some(s("u")) }, NamedTopic { name: Some(s("t")) }]),
    };
    let reply = metadata(&state, &ask, 7, 1, &vec![Fault::MetadataUnknownTopicOmitted]);
    assert_eq!(reply.topics.len(), 1);
    assert_eq!(reply.topics[0].name.as_deref(), Some("t"));
}

#[test]
fn a_deleted_topic_is_gone_with_its_log() {
    let mut state = cluster();
    create(&mut state, "t", 1, false);
    create(&mut state, "u", 1, false);
    let (t, u) = (state.placement("t"), state.placement("u"));
    for (name, node) in [("t", t), ("u", u)] {
        let row = write(&mut state, None, name, b"xx", Some(vec![pair(-1, -1, -1)]), node, &vec![]);
        assert_eq!(row.unwrap().error_code, NONE);
    }
    let ask = DeleteTopicsAsk { topics: vec![], topic_names: vec![s("t"), s("nothing")] };
    let reply = delete_topics(&mut state, &ask, &vec![]);
    assert_eq!((reply.responses[0].error_code, reply.responses[1].error_code), (NONE, 3));
    assert_eq!(read(&state, "t", 0, 0, &vec![]).0, 3);
    assert_eq!(read(&state, "u", 0, 0, &vec![]).1.unwrap().high_watermark, 2);
    assert_eq!(create(&mut state, "t", 1, false), NONE);
}

#[test]
fn what_is_produced_at_the_leader_is_fetched() {
    let mut state = cluster();
    create(&mut state, "t", 1, false);
    let leader = state.placement("t");
    let elsewhere = leader % 3 + 1;
    let row =
        write(&mut state, None, "t", b"no", Some(vec![pair(-1, -1, -1)]), elsewhere, &vec![]).unwrap();
    assert_eq!((row.error_code, row.base_offset), (NOT_LEADER, -1));
    for base in [0, 2] {
        let row =
            write(&mut state, None, "t", b"ab", Some(vec![pair(-1, -1, -1)]), leader, &vec![]).unwrap();
        assert_eq!((row.error_code, row.base_offset, row.log_start_offset), (NONE, base, Some(0)));
    }
    let (error, log) = read(&state, "t", 0, 0, &vec![]);
    let log = log.unwrap();
    assert_eq!((error, log.high_watermark, log.last_stable_offset), (NONE, 4, 4));
    assert_eq!(log.records.as_deref(), Some(&b"abab"[..]));
    assert_eq!(log.aborted_transactions, None);
    // At the end there is nothing yet; past it nothing will do.
    assert_eq!(read(&state, "t", 4, 0, &vec![]).0, NONE);
    assert_eq!(read(&state, "t", 5, 0, &vec![]).0, 1);
    assert_eq!(read(&state, "t", 5, 0, &vec![Fault::FetchPastEndSucceeds]).0, NONE);
    assert_eq!(
        read(&state, "t", 0, 0, &vec![Fault::FetchCorruptBatch]).1.unwrap().records.as_deref(),
        Some(&b"abac"[..])
    );
}

#[test]
fn a_record_set_that_does_not_decode_closes_the_connection() {
    let mut state = cluster();
    create(&mut state, "t", 1, false);
    let leader = state.placement("t");
    assert!(write(&mut state, None, "t", b"?", None, leader, &vec![]).is_none());
}

#[test]
fn idempotent_writes_are_held_to_their_sequence() {
    let mut state = cluster();
    create(&mut state, "t", 1, false);
    let leader = state.placement("t");
    let mut send = |sequence: i32, faults: &Vec<Fault>| {
        let row = write(
            &mut state,
            None,
            "t",
            b"ab",
            Some(vec![pair(9, 0, sequence)]),
            leader,
            faults,
        )
        .unwrap();
        (row.error_code, row.base_offset)
    };
    assert_eq!(send(0, &vec![]), (NONE, 0));
    assert_eq!(send(0, &vec![]), (NONE, 0));
    assert_eq!(send(5, &vec![]), (45, -1));
    assert_eq!(send(2, &vec![]), (NONE, 2));
    assert_eq!(send(2, &vec![Fault::ProduceAppendsIdempotentRetries]), (NONE, 4));
}

#[test]
fn a_fetch_waits_only_for_what_is_not_there() {
    let mut state = cluster();
    create(&mut state, "t", 1, false);
    let leader = state.placement("t");
    let ask = |offset: i64, max_wait_ms: i32, min_bytes: i32| FetchAsk {
        max_wait_ms,
        min_bytes,
        isolation_level: 0,
        topics: vec![FetchTopic {
            topic: s("t"),
            topic_id: [0; 16],
            partitions: vec![FetchPartition { partition: 0, fetch_offset: offset }],
        }],
    };
    assert_eq!(fetch_wait(&state, &ask(0, 500, 1), &vec![]), Some(500));
    assert_eq!(fetch_wait(&state, &ask(0, 0, 1), &vec![]), None);
    assert_eq!(fetch_wait(&state, &ask(0, 500, 0), &vec![]), None);
    assert_eq!(fetch_wait(&state, &ask(0, 500, 1), &vec![Fault::FetchIgnoresMaxWait]), None);
    write(&mut state, None, "t", b"ab", Some(vec![pair(-1, -1, -1)]), leader, &vec![]);
    assert_eq!(fetch_wait(&state, &ask(0, 500, 1), &vec![]), None);
    assert_eq!(fetch_wait(&state, &ask(2, 500, 1), &vec![]), Some(500));
}

#[test]
fn a_timestamp_finds_the_first_record_at_or_after_it() {
    let stored = || {
        Some(vec![
            batch(-1, -1, -1, vec![record(0, 0), record(5, 1)]),
            RecordBatch {
                last_offset_delta: 2,
                records: Records::Compressed { count: 3, payload: vec![1] },
                ..batch(-1, -1, -1, vec![])
            },
            RecordBatch { base_timestamp: 2000, ..batch(-1, -1, -1, vec![record(1, 0)]) },
        ])
    };
    assert_eq!(timestamp_search(&stored(), 0), (1000, 0));
    assert_eq!(timestamp_search(&stored(), 1000), (1000, 0));
    assert_eq!(timestamp_search(&stored(), 1001), (1005, 1));
    assert_eq!(timestamp_search(&stored(), 1006), (2001, 5));
    assert_eq!(timestamp_search(&stored(), 2002), (-1, -1));
    assert_eq!(timestamp_search(&None, 0), (-1, -1));
}

#[test]
fn offsets_are_listed_by_sentinel_and_by_time() {
    let mut state = cluster();
    create(&mut state, "t", 1, false);
    let leader = state.placement("t");
    write(&mut state, None, "t", b"ab", Some(vec![pair(-1, -1, -1)]), leader, &vec![]);
    let list = |name: &str, timestamp: i64, faults: &Vec<Fault>| {
        let ask = ListOffsetsAsk {
            topics: vec![ListTopic {
                name: s(name),
                partitions: vec![ListPartition {
                    partition_index: 0,
                    timestamp,
                    stored: Some(vec![pair(-1, -1, -1)]),
                }],
            }],
        };
        let row = list_offsets(&state, &ask, faults).topics.remove(0).partitions.remove(0);
        (row.timestamp, row.offset)
    };
    assert_eq!(list("t", -2, &vec![]), (-1, 0));
    assert_eq!(list("t", -1, &vec![]), (-1, 2));
    assert_eq!(list("t", 1003, &vec![]), (1005, 1));
    assert_eq!(list("t", 9999, &vec![]), (-1, -1));
    assert_eq!(list("u", -1, &vec![]), (-1, 0));
    assert_eq!(list("u", 1003, &vec![]), (-1, -1));
    assert_eq!(list("t", -2, &vec![Fault::ListOffsetsWrongEarliest]), (-1, 2));
    assert_eq!(list("u", -2, &vec![Fault::ListOffsetsWrongEarliest]), (-1, 1));
}

fn commit(state: &mut ClusterState, node_id: i32, offset: i64, metadata: Option<&str>) -> i16 {
    let ask = OffsetCommitAsk {
        group_id: s("g"),
        topics: vec![CommitTopic {
            name: s("t"),
            topic_id: [0; 16],
            partitions: vec![CommitPartition {
                partition_index: 0,
                committed_offset: offset,
                committed_metadata: metadata.map(s),
            }],
        }],
    };
    offset_commit(state, &ask, node_id, &vec![]).topics[0].partitions[0].error_code
}

fn committed(state: &ClusterState, partition: i32, faults: &Vec<Fault>) -> (i64, Option<String>) {
    let ask = OffsetFetchAsk {
        group_id: s("g"),
        topics: Some(vec![OffsetTopic {
            name: s("t"),
            topic_id: [0; 16],
            partition_indexes: vec![partition],
        }]),
        groups: vec![],
    };
    let row = offset_fetch(state, &ask, 7, faults).topics.remove(0).partitions.remove(0);
    (row.committed_offset, row.metadata)
}

#[test]
fn commits_are_the_coordinators_and_read_back() {
    let mut state = cluster();
    let coordinator = state.placement("g");
    assert_eq!(committed(&state, 0, &vec![]), (-1, None));
    assert_eq!(commit(&mut state, coordinator % 3 + 1, 7, Some("m")), NOT_COORDINATOR);
    assert_eq!(committed(&state, 0, &vec![]).0, -1);
    assert_eq!(commit(&mut state, coordinator, 7, Some("m")), NONE);
    assert_eq!(committed(&state, 0, &vec![]), (7, Some(s("m"))));
    assert_eq!(committed(&state, 1, &vec![]).0, -1);
    assert_eq!(committed(&state, 1, &vec![Fault::OffsetFetchUnsetIsZero]).0, 0);
    assert_eq!(committed(&state, 0, &vec![Fault::OffsetFetchLosesCommit]).0, -1);
}

#[test]
fn a_commit_reads_back_after_others() {
    let mut state = cluster();
    let sent = |state: &mut ClusterState, group: &str, topic: &str, partition: i32, offset: i64| {
        let ask = OffsetCommitAsk {
            group_id: s(group),
            topics: vec![CommitTopic {
                name: s(topic),
                topic_id: [0; 16],
                partitions: vec![CommitPartition {
                    partition_index: partition,
                    committed_offset: offset,
                    committed_metadata: None,
                }],
            }],
        };
        let coordinator = state.placement(group);
        offset_commit(state, &ask, coordinator, &vec![]).topics[0].partitions[0].error_code
    };
    let coordinator = state.placement("g");
    assert_eq!(commit(&mut state, coordinator, 7, Some("m")), NONE);
    assert_eq!(sent(&mut state, "h", "t", 0, 1), NONE);
    assert_eq!(sent(&mut state, "g", "u", 0, 2), NONE);
    assert_eq!(sent(&mut state, "g", "t", 1, 3), NONE);
    // One that is refused counts for nothing, whatever it names.
    assert_eq!(commit(&mut state, coordinator % 3 + 1, 4, None), NOT_COORDINATOR);
    assert_eq!(committed(&state, 0, &vec![]), (7, Some(s("m"))));
    assert_eq!(committed(&state, 1, &vec![]), (3, None));
    assert_eq!(committed(&state, 2, &vec![]), (-1, None));
    assert_eq!(commit(&mut state, coordinator, 5, None), NONE);
    assert_eq!(committed(&state, 0, &vec![]), (5, None));
}

#[test]
fn a_coordinator_is_named_in_the_shape_of_the_version() {
    let state = cluster();
    let ask = FindCoordinatorAsk { key: s("g"), coordinator_keys: vec![s("g"), s("h")] };
    let old = find_coordinator(&state, &ask, 3, 1, &vec![]);
    assert_eq!(old.one.unwrap().node_id, state.placement("g"));
    assert!(old.coordinators.is_empty());
    let new = find_coordinator(&state, &ask, 4, 1, &vec![]);
    assert!(new.one.is_none());
    let named: Vec<(&str, i32)> =
        new.coordinators.iter().map(|c| (c.key.as_str(), c.node_id)).collect();
    assert_eq!(named, vec![("g", state.placement("g")), ("h", state.placement("h"))]);
}

fn join(state: &mut ClusterState, member_id: &str, version: i16) -> (i16, String, i32) {
    let ask = JoinGroupAsk {
        group_id: s("g"),
        member_id: s(member_id),
        protocol_type: s("consumer"),
        protocols: vec![Protocol { name: s("range"), metadata: vec![1, 2] }],
    };
    let reply = join_group(state, &ask, version, &vec![]);
    (reply.error_code, reply.member_id, reply.generation_id)
}

#[test]
fn a_member_is_given_an_id_before_it_joins() {
    let mut state = cluster();
    let (error, id, generation) = join(&mut state, "", 9);
    assert_eq!((error, generation), (79, -1));
    assert!(!id.is_empty());
    let (error, joined, generation) = join(&mut state, &id, 9);
    assert_eq!((error, joined.as_str(), generation), (NONE, id.as_str(), 1));
    // A second member moves the generation; the first again does not.
    let (_, other, _) = join(&mut state, "", 9);
    assert_ne!(other, id);
    assert_eq!(join(&mut state, &other, 9).2, 2);
    assert_eq!(join(&mut state, &id, 9).2, 2);
    let beat = |state: &mut ClusterState, generation_id: i32, member: &str| {
        let ask = HeartbeatAsk { group_id: s("g"), generation_id, member_id: s(member) };
        heartbeat(state, &ask, &vec![])
    };
    assert_eq!(beat(&mut state, 2, &id), NONE);
    assert_eq!(beat(&mut state, 1, &id), 22);
    assert_eq!(beat(&mut state, 2, "stranger"), 25);
    let ask = SyncGroupAsk {
        group_id: s("g"),
        generation_id: 2,
        member_id: id.clone(),
        assignments: vec![GivenAssignment { member_id: id.clone(), assignment: vec![7, 8] }],
    };
    let reply = sync_group(&mut state, &ask, &vec![]);
    assert_eq!((reply.error_code, reply.assignment), (NONE, vec![7, 8]));
    let described = describe_groups(&state, &DescribeGroupsAsk { groups: vec![s("g")] }, &vec![]);
    let members: Vec<&str> =
        described.groups[0].members.iter().map(|m| m.member_id.as_str()).collect();
    assert_eq!(members, vec![id.as_str(), other.as_str()]);
    let ask = LeaveGroupAsk { group_id: s("g"), member_id: String::new(), members: vec![id.clone()] };
    assert_eq!(leave_group(&mut state, &ask, &vec![]), NONE);
    assert_eq!(beat(&mut state, 2, &id), 25);
}

#[test]
fn a_coordinator_tells_an_assignment_once() {
    let mut state = cluster();
    create(&mut state, "t", 1, false);
    let mut beat = |epoch: i32, subscribed: Option<&str>, faults: &Vec<Fault>| {
        let ask = ConsumerGroupAsk {
            group_id: s("g"),
            member_id: s("m"),
            member_epoch: epoch,
            subscribed: subscribed.map(|t| vec![s(t)]),
        };
        let reply = consumer_group(&mut state, &ask, faults);
        let ids = reply.assignment.map(|a| a.iter().map(|t| t.topic_id).collect::<Vec<_>>());
        (reply.error_code, reply.member_epoch, ids)
    };
    assert_eq!(beat(0, Some("t"), &vec![]), (NONE, 1, Some(vec![mint_topic_id("t")])));
    assert_eq!(beat(1, None, &vec![]), (NONE, 1, None));
    assert_eq!(beat(9, None, &vec![]).0, 110);
    let revoking = vec![Fault::ConsumerGroupNullSubscriptionRevokes];
    assert_eq!(beat(1, None, &revoking), (NONE, 1, Some(vec![])));
}

#[test]
fn claiming_a_transactional_id_fences_its_holder() {
    let mut state = cluster();
    create(&mut state, "t", 1, false);
    let leader = state.placement("t");
    let claim = |state: &mut ClusterState| {
        let ask = InitProducerIdAsk { transactional_id: Some(s("tx")) };
        let reply = init_producer_id(state, &ask, &vec![]);
        (reply.error_code, reply.producer_id, reply.producer_epoch)
    };
    let announce = |state: &mut ClusterState, epoch: i16| {
        let ask = AddPartitionsAsk {
            transactional_id: s("tx"),
            producer_epoch: epoch,
            topics: vec![TxnTopic { name: s("t"), partitions: vec![0] }],
        };
        add_partitions(state, &ask, &vec![]).topics[0].partitions[0].error_code
    };
    let ask = AddOffsetsAsk { transactional_id: s("tx"), producer_epoch: 0 };
    assert_eq!(add_offsets(&state, &ask, &vec![]), 49);
    let (error, id, epoch) = claim(&mut state);
    assert_eq!((error, epoch), (NONE, 0));
    assert_eq!(claim(&mut state), (NONE, id, 1));
    assert_eq!(announce(&mut state, 0), 90);
    assert_eq!(announce(&mut state, 1), NONE);
    assert_eq!(add_offsets(&state, &ask, &vec![]), 90);
    let zombie =
        write(&mut state, Some("tx"), "t", b"zz", Some(vec![pair(id, 0, 0)]), leader, &vec![]);
    assert_eq!(zombie.unwrap().error_code, 90);
    let row = write(&mut state, Some("tx"), "t", b"ab", Some(vec![pair(id, 1, 0)]), leader, &vec![]);
    assert_eq!(row.unwrap().error_code, NONE);
    let log = read(&state, "t", 0, 1, &vec![]).1.unwrap();
    assert_eq!((log.high_watermark, log.last_stable_offset), (2, 0));
    let end = |state: &mut ClusterState, epoch: i16, committed: bool| {
        let ask = EndTxnAsk { transactional_id: s("tx"), producer_epoch: epoch, committed };
        end_txn(state, &ask, &vec![])
    };
    assert_eq!(end(&mut state, 0, true), 90);
    assert_eq!(end(&mut state, 1, false), NONE);
    let log = read(&state, "t", 0, 1, &vec![]).1.unwrap();
    assert_eq!((log.high_watermark, log.last_stable_offset), (3, 3));
    assert_eq!(log.aborted_transactions, Some(vec![(id, 0)]));
    assert_eq!(read(&state, "t", 0, 0, &vec![]).1.unwrap().aborted_transactions, None);
}

#[test]
fn taking_over_a_transactional_id_ends_what_was_left_open() {
    let mut state = cluster();
    create(&mut state, "t", 1, false);
    let leader = state.placement("t");
    let claim = InitProducerIdAsk { transactional_id: Some(s("tx")) };
    let id = init_producer_id(&mut state, &claim, &vec![]).producer_id;
    let row = write(&mut state, Some("tx"), "t", b"ab", Some(vec![pair(id, 0, 0)]), leader, &vec![]);
    assert_eq!(row.unwrap().error_code, NONE);
    let held = TxnOffsetsAsk {
        transactional_id: s("tx"),
        group_id: s("g"),
        producer_epoch: 0,
        topics: vec![TxnOffsetTopic {
            name: s("t"),
            partitions: vec![CommitPartition {
                partition_index: 0,
                committed_offset: 5,
                committed_metadata: None,
            }],
        }],
    };
    txn_offset_commit(&mut state, &held, &vec![]);
    let log = read(&state, "t", 0, 1, &vec![]).1.unwrap();
    assert_eq!((log.high_watermark, log.last_stable_offset), (2, 0));
    let reply = init_producer_id(&mut state, &claim, &vec![]);
    assert_eq!((reply.producer_id, reply.producer_epoch), (id, 1));
    let log = read(&state, "t", 0, 1, &vec![]).1.unwrap();
    assert_eq!((log.high_watermark, log.last_stable_offset), (3, 3));
    assert_eq!(log.aborted_transactions, Some(vec![(id, 0)]));
    let end = EndTxnAsk { transactional_id: s("tx"), producer_epoch: 1, committed: true };
    assert_eq!(end_txn(&mut state, &end, &vec![]), NONE);
    assert_eq!(committed(&state, 0, &vec![]).0, -1);
}

#[test]
fn offsets_of_a_transaction_wait_for_its_commit() {
    let mut state = cluster();
    let ask = InitProducerIdAsk { transactional_id: Some(s("tx")) };
    init_producer_id(&mut state, &ask, &vec![]);
    let hold = |state: &mut ClusterState, offset: i64| {
        let ask = TxnOffsetsAsk {
            transactional_id: s("tx"),
            group_id: s("g"),
            producer_epoch: 0,
            topics: vec![TxnOffsetTopic {
                name: s("t"),
                partitions: vec![CommitPartition {
                    partition_index: 0,
                    committed_offset: offset,
                    committed_metadata: None,
                }],
            }],
        };
        txn_offset_commit(state, &ask, &vec![]).topics[0].partitions[0].error_code
    };
    let end = |state: &mut ClusterState, committed: bool| {
        let ask = EndTxnAsk { transactional_id: s("tx"), producer_epoch: 0, committed };
        end_txn(state, &ask, &vec![])
    };
    assert_eq!(hold(&mut state, 5), NONE);
    assert_eq!(committed(&state, 0, &vec![]).0, -1);
    assert_eq!(end(&mut state, false), NONE);
    assert_eq!(committed(&state, 0, &vec![]).0, -1);
    assert_eq!(hold(&mut state, 6), NONE);
    assert_eq!(end(&mut state, true), NONE);
    assert_eq!(committed(&state, 0, &vec![]).0, 6);
}

#[test]
fn a_scram_exchange_takes_a_handshake_and_two_tokens() {
    let mut sasl = SaslState::Unstarted;
    let none = vec![];
    assert_eq!(token_use(&sasl, &none), TokenUse::Illegal);
    let reply = authenticate(&mut sasl, Ok(s("x")), &none);
    assert_eq!((reply.error_code, reply.error_message.as_deref()), (34, Some("no mechanism negotiated")));
    let reply = handshake(&mut sasl, &s("GSSAPI"), &none);
    assert_eq!((reply.error_code, reply.mechanisms), (33, vec![s("SCRAM-SHA-256"), s("PLAIN")]));
    assert_eq!(token_use(&sasl, &none), TokenUse::Illegal);
    assert_eq!(handshake(&mut sasl, &s("SCRAM-SHA-256"), &none).error_code, NONE);
    assert_eq!(token_use(&sasl, &none), TokenUse::ScramFirst);
    let reply = authenticate(&mut sasl, Err(s("unknown user")), &none);
    assert_eq!((reply.error_code, reply.error_message.as_deref()), (58, Some("unknown user")));
    let reply = authenticate(&mut sasl, Ok(s("r=abc,s=c2FsdA==,i=4096")), &none);
    assert_eq!((reply.error_code, reply.auth_bytes.as_slice()), (NONE, &b"r=abc,s=c2FsdA==,i=4096"[..]));
    assert_eq!(token_use(&sasl, &none), TokenUse::ScramFinal);
    let reply = authenticate(&mut sasl, Ok(s("v=sig")), &none);
    assert_eq!((reply.error_code, reply.auth_bytes.as_slice()), (NONE, &b"v=sig"[..]));
    assert_eq!(token_use(&sasl, &none), TokenUse::Accepted);
}

#[test]
fn sasl_faults_weaken_what_they_name() {
    let hide = vec![Fault::SaslHandshakeHidesMechanisms];
    assert!(handshake(&mut SaslState::Unstarted, &s("GSSAPI"), &hide).mechanisms.is_empty());
    let lax = vec![Fault::SaslAuthenticateWithoutHandshake];
    assert_eq!(authenticate(&mut SaslState::Unstarted, Ok(s("x")), &lax).error_code, NONE);
    let nonce = vec![Fault::ScramNonceReplacesClients];
    assert_eq!(
        mangle_server_first(s("r=abc,s=c2FsdA==,i=4096"), &nonce),
        "r=odradek-server-nonce,s=c2FsdA==,i=4096"
    );
    assert_eq!(mangle_server_first(s("r=abc"), &vec![]), "r=abc");
    let mut pending = SaslState::ScramPending;
    let bare = vec![Fault::ScramSkipsServerSignature];
    assert!(authenticate(&mut pending, Ok(s("v=sig")), &bare).auth_bytes.is_empty());
    assert_eq!(scram_iterations(&vec![]), 4096);
    assert_eq!(scram_iterations(&vec![Fault::ScramWeakIterations]), 1);
    assert_eq!(token_text(&vec![b'n', 0xff, b',']), "n\u{fffd},");
}

#[test]
fn only_frames_that_are_served_are_opened() {
    let frame = vec![0, 3, 0, 12, 0, 0, 0, 1];
    assert_eq!(open_frame(&frame, false, &schema()), Some((3, 12)));
    assert_eq!(open_frame(&frame, true, &schema()), None);
    assert_eq!(open_frame(&vec![0, 3, 0, 12, 0, 0, 0], false, &schema()), None);
    assert_eq!(open_frame(&vec![0, 3, 0, 14, 0, 0, 0, 1], false, &schema()), None);
    assert_eq!(open_frame(&vec![0, 18, 0, 99, 0, 0, 0, 1], false, &schema()), Some((18, 99)));
    assert_eq!(frame_payload(vec![1], &vec![2, 3], false), vec![1, 2, 3]);
    assert_eq!(frame_payload(vec![1], &vec![2], true), vec![1, 2, 0xde, 0xad, 0xbe]);
}

#[test]
fn answers_are_framed_as_they_were_asked_for_unless_a_fault_says_otherwise() {
    let asked = Asked { correlation_id: 41, api_version: 3, header_version: 1 };
    let ask = |faults: &Vec<Fault>, asked: Asked, request: Request| {
        serve(&mut cluster(), &mut SaslState::Unstarted, request, asked, &schema(), 1, faults)
    };
    let framing = |answer: Answer| match answer {
        Answer::Frame(framing, _) => (
            framing.correlation_id,
            framing.header_version,
            framing.encode_at,
            framing.trailing_garbage,
        ),
        _ => unreachable!(),
    };
    // ApiVersions answers keep the plain header at every version.
    assert_eq!(framing(ask(&vec![], asked, Request::ApiVersions)), (41, 0, 3, false));
    let off = ask(&vec![Fault::WrongCorrelationEcho], asked, Request::ApiVersions);
    assert_eq!(framing(off), (42, 0, 3, false));
    let future = Asked { api_version: 99, ..asked };
    assert_eq!(framing(ask(&vec![], future, Request::ApiVersions)), (41, 0, 0, false));
    let noisy = ask(&vec![Fault::TrailingGarbage], asked, Request::ApiVersions);
    assert_eq!(framing(noisy), (41, 0, 3, true));
    let flexible = ask(&vec![Fault::FlexibleHeaderOnV3], asked, Request::ApiVersions);
    assert_eq!(framing(flexible).1, 1);
    let at_twelve = Asked { api_version: 12, ..asked };
    let metadata = || Request::Metadata(MetadataAsk { topics: None });
    assert_eq!(framing(ask(&vec![], at_twelve, metadata())), (41, 1, 12, false));
    let plain = ask(&vec![Fault::MetadataNonFlexibleHeader], at_twelve, metadata());
    assert_eq!(framing(plain).1, 0);
    let fetch = Request::Fetch(FetchAsk {
        max_wait_ms: 0,
        min_bytes: 0,
        isolation_level: 0,
        topics: vec![],
    });
    assert!(framing(ask(&vec![Fault::FetchTrailingGarbage], asked, fetch)).3);
}

#[test]
fn a_produce_that_wants_no_answer_gets_none() {
    let request = |acks: i16| {
        Request::Produce(ProduceAsk { transactional_id: None, acks, topics: vec![] })
    };
    let asked = Asked { correlation_id: 1, api_version: 5, header_version: 0 };
    let mut ask = |acks: i16, faults: &Vec<Fault>| {
        serve(
            &mut cluster(),
            &mut SaslState::Unstarted,
            request(acks),
            asked,
            &schema(),
            1,
            faults,
        )
    };
    assert!(matches!(ask(0, &vec![]), Answer::Silence));
    assert!(matches!(ask(1, &vec![]), Answer::Frame(_, Body::Produce(_))));
    assert!(matches!(ask(0, &vec![Fault::ProduceAnswersAcksZero]), Answer::Frame(..)));
    match ask(1, &vec![Fault::MisshapesOneProduceVersion]) {
        Answer::Frame(framing, _) => assert_eq!(framing.encode_at, 0),
        _ => unreachable!(),
    }
}

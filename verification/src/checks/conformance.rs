//! Whole runs of checks against the reference subject.
//!
//! A run is a tape and what the world was before each of its events: the
//! cluster, and the connections to its brokers. Where every event is what
//! came of the action that the check asked for, with each answer showing what
//! the subject serves, a check that has come to a verdict has passed.

use vstd::prelude::*;
use vstd::string::*;

use crate::checks::asks;
use crate::checks::batch;
use crate::checks::calibration;
use crate::checks::calibration_groups;
use crate::checks::calibration_log;
use crate::checks::calibration_state;
use crate::checks::ctx;
use crate::checks::ctx::ServerCtx;
use crate::checks::find;
use crate::checks::flows;
use crate::checks::naming;
use crate::checks::server::ServerCheck;
use crate::checks::server_log;
use crate::checks::server_txn;
use crate::checks::tape;
use crate::checks::tape::{
    ActionOf, BatchStamp, CheckError, Event, FlowView, HaltView, Label, StepView,
};
use crate::checks::trial;
use crate::checks::trial::Deed;
use crate::checks::txn_flows;
use crate::subject::Fault;
use crate::subject::replies::{
    ConsumerGroupReplyView, CreateTopicsReplyView, DeleteTopicsReplyView, FetchedPartitionView,
    FindCoordinatorReplyView, ListOffsetsReplyView, MetadataReplyView, OffsetCommitReplyView,
    OffsetFetchReplyView, OffsetRowsView, PartitionReplyView, ProduceReplyView, TxnCodesReplyView,
};
use crate::subject::requests::{
    AddOffsetsAskView, AddPartitionsAskView, CommitPartitionView, CommitTopicView,
    ConsumerGroupAskView, CreateTopicsAskView, DeleteTopicsAskView, DescribeGroupsAskView,
    EndTxnAskView, FetchAskView, FetchPartition, FetchTopicView, FindCoordinatorAskView,
    GivenAssignmentView, HeartbeatAskView, InitProducerIdAskView, JoinGroupAskView,
    LeaveGroupAskView, ListOffsetsAskView, ListPartitionView, ListTopicView, MetadataAskView,
    NamedTopicView, NewTopicView, OffsetCommitAskView, OffsetFetchAskView, OffsetGroupView,
    OffsetTopicView, ProduceAskView, ProducePartitionView, ProduceTopicView, ProtocolView,
    SyncGroupAskView, TxnOffsetTopicView, TxnOffsetsAskView, TxnTopicView,
};
use crate::subject::sasl::SaslView;
use crate::subject::serve;
use crate::subject::serve::{AnswerView, Asked, BodyView, Framing, RequestView};
use crate::subject::state;
use crate::subject::state::ClusterView;
use crate::subject::topics;
use crate::text;
use crate::wire;
use crate::wire::{
    ApiVersion, CommitTopic, CommittedTopic, ConsumerGroupAnswer, CreatedRow, ErrorCode, FetchedRow,
    FindCoordinatorAnswer, MetadataAnswer, OffsetFetchAnswer, OffsetTopic, PartitionRow,
    ProducedRow, RecordBatch, RequestOf, Response, Schema, TopicOf, Versions, ADD_OFFSETS_TO_TXN,
    ADD_PARTITIONS_TO_TXN, API_VERSIONS, CONSUMER_GROUP_HEARTBEAT, CREATE_TOPICS, DELETE_TOPICS,
    DESCRIBE_GROUPS, END_TXN, FETCH, FIND_COORDINATOR, HEARTBEAT, INIT_PRODUCER_ID, JOIN_GROUP,
    LEAVE_GROUP, LIST_OFFSETS, METADATA, OFFSET_COMMIT, OFFSET_FETCH, PRODUCE, SASL_AUTHENTICATE,
    SASL_HANDSHAKE, SYNC_GROUP, TXN_OFFSET_COMMIT,
};
use crate::VerdictView;

verus! {

/// A connection to one broker.
pub struct Line {
    pub node_id: i32,
    pub sasl: SaslView,
    pub open: bool,
    /// The correlation ids of the frames that came in and were not read.
    pub queued: Seq<i32>,
}

/// The cluster, and every connection that was made to it.
pub struct World {
    pub state: ClusterView,
    pub lines: Seq<Line>,
}

/// What both sides share, the codec: its versions, the response header that
/// it gives each api and version, the batches that it reads a record set as,
/// the set it writes of them with the first restamped, and what SCRAM makes of
/// a token, and what it calls an error. And the faults that the subject was
/// told to have.
pub struct Setting {
    pub faults: Seq<Fault>,
    pub schema: Schema,
    pub header: spec_fn(i16, i16) -> i16,
    pub batches: spec_fn(Seq<u8>) -> Option<Seq<RecordBatch>>,
    pub rewritten: spec_fn(Seq<u8>) -> Option<Seq<u8>>,
    pub scram: spec_fn(Seq<u8>) -> Result<Seq<char>, Seq<char>>,
    pub shown: spec_fn(i16) -> Seq<char>,
}

/// A topic's name, and its id where it is given by that.
pub open spec fn spelled(topic: TopicOf<Seq<char>>) -> (Seq<char>, Seq<u8>) {
    match topic {
        TopicOf::Name(name) => (name, wire::zero_id()),
        TopicOf::Id(id) => (Seq::empty(), id@),
    }
}

/// What a partition's log holds, as the codec reads it.
pub open spec fn stored(setting: Setting, state: ClusterView, topic: Seq<char>) -> Option<
    Seq<RecordBatch>,
> {
    if state.logs.contains_key((topic, 0)) {
        (setting.batches)(state.logs[(topic, 0)].bytes)
    } else {
        None
    }
}

/// A request as the subject reads it.
pub open spec fn received(
    setting: Setting,
    state: ClusterView,
    request: RequestOf<Seq<char>, Seq<u8>>,
) -> RequestView {
    match request {
        RequestOf::ApiVersions => RequestView::ApiVersions,
        RequestOf::Metadata { topic } => RequestView::Metadata(
            MetadataAskView {
                topics: Some(
                    match topic {
                        Some(name) => seq![NamedTopicView { name: Some(name) }],
                        None => Seq::empty(),
                    },
                ),
            },
        ),
        RequestOf::CreateTopics {
            topic,
            replication_factor,
            validate_only,
        } => RequestView::CreateTopics(
            CreateTopicsAskView {
                topics: seq![
                    NewTopicView { name: topic, num_partitions: 1, replication_factor },
                ],
                validate_only,
            },
        ),
        RequestOf::DeleteTopics { topic, by_state } => RequestView::DeleteTopics(
            DeleteTopicsAskView {
                topics: if by_state {
                    seq![NamedTopicView { name: Some(topic) }]
                } else {
                    Seq::empty()
                },
                topic_names: if by_state {
                    Seq::empty()
                } else {
                    seq![topic]
                },
            },
        ),
        RequestOf::Produce {
            topic,
            partition,
            acks,
            transactional_id,
            records,
        } => RequestView::Produce(
            ProduceAskView {
                transactional_id,
                acks,
                topics: seq![
                    ProduceTopicView {
                        name: spelled(topic).0,
                        topic_id: spelled(topic).1,
                        partitions: seq![
                            ProducePartitionView {
                                index: partition,
                                records: Some(records),
                                batches: (setting.batches)(records),
                                rewritten: (setting.rewritten)(records),
                            },
                        ],
                    },
                ],
            },
        ),
        RequestOf::Fetch {
            topic,
            partition,
            offset,
            max_wait_ms,
            min_bytes,
            max_bytes,
            isolation_level,
        } => RequestView::Fetch(
            FetchAskView {
                max_wait_ms,
                min_bytes,
                isolation_level,
                topics: seq![
                    FetchTopicView {
                        topic: spelled(topic).0,
                        topic_id: spelled(topic).1,
                        partitions: seq![
                            FetchPartition { partition, fetch_offset: offset },
                        ],
                    },
                ],
            },
        ),
        RequestOf::ListOffsets { topic, timestamp } => RequestView::ListOffsets(
            ListOffsetsAskView {
                topics: seq![
                    ListTopicView {
                        name: topic,
                        partitions: seq![
                            ListPartitionView {
                                partition_index: 0,
                                timestamp,
                                stored: stored(setting, state, topic),
                            },
                        ],
                    },
                ],
            },
        ),
        RequestOf::FindCoordinator { key_type, key, batched } => RequestView::FindCoordinator(
            FindCoordinatorAskView {
                key: if batched {
                    Seq::empty()
                } else {
                    key
                },
                coordinator_keys: if batched {
                    seq![key]
                } else {
                    Seq::empty()
                },
            },
        ),
        RequestOf::OffsetCommit { group, topic, offset, metadata } => RequestView::OffsetCommit(
            OffsetCommitAskView {
                group_id: group,
                topics: seq![
                    CommitTopicView {
                        name: spelled(topic).0,
                        topic_id: spelled(topic).1,
                        partitions: seq![
                            CommitPartitionView {
                                partition_index: 0,
                                committed_offset: offset,
                                committed_metadata: metadata,
                            },
                        ],
                    },
                ],
            },
        ),
        RequestOf::OffsetFetch { group, topic, batched } => {
            let topics = Some(
                seq![
                    OffsetTopicView {
                        name: spelled(topic).0,
                        topic_id: spelled(topic).1,
                        partition_indexes: seq![0i32],
                    },
                ],
            );
            RequestView::OffsetFetch(
                if batched {
                    OffsetFetchAskView {
                        group_id: Seq::empty(),
                        topics: None,
                        groups: seq![OffsetGroupView { group_id: group, topics }],
                    }
                } else {
                    OffsetFetchAskView { group_id: group, topics, groups: Seq::empty() }
                },
            )
        },
        RequestOf::JoinGroup { group, member_id } => RequestView::JoinGroup(
            JoinGroupAskView {
                group_id: group,
                member_id,
                protocol_type: "consumer"@,
                protocols: seq![ProtocolView { name: "range"@, metadata: seq![0u8, 1u8] }],
            },
        ),
        RequestOf::SyncGroup { group, generation, member_id, assignment } => RequestView::SyncGroup(
            SyncGroupAskView {
                group_id: group,
                generation_id: generation,
                member_id,
                assignments: seq![GivenAssignmentView { member_id, assignment }],
            },
        ),
        RequestOf::Heartbeat { group, generation, member_id } => RequestView::Heartbeat(
            HeartbeatAskView { group_id: group, generation_id: generation, member_id },
        ),
        RequestOf::LeaveGroup { group, member_id } => RequestView::LeaveGroup(
            LeaveGroupAskView {
                group_id: group,
                member_id: Seq::empty(),
                members: seq![member_id],
            },
        ),
        RequestOf::DescribeGroups { group } => RequestView::DescribeGroups(
            DescribeGroupsAskView { groups: seq![group] },
        ),
        RequestOf::ConsumerGroupHeartbeat {
            group,
            member_id,
            epoch,
            subscribed,
        } => RequestView::ConsumerGroup(
            ConsumerGroupAskView {
                group_id: group,
                member_id,
                member_epoch: epoch,
                subscribed: match subscribed {
                    Some(topic) => Some(seq![topic]),
                    None => None,
                },
            },
        ),
        RequestOf::SaslHandshake { mechanism } => RequestView::SaslHandshake(mechanism),
        RequestOf::SaslAuthenticate { token } => RequestView::SaslAuthenticate(
            (setting.scram)(token),
        ),
        RequestOf::InitProducerId { transactional_id, timeout_ms } => RequestView::InitProducerId(
            InitProducerIdAskView { transactional_id },
        ),
        RequestOf::AddPartitionsToTxn { actor, topic, partition } => RequestView::AddPartitions(
            AddPartitionsAskView {
                transactional_id: actor.transactional_id,
                producer_epoch: actor.producer_epoch,
                topics: seq![TxnTopicView { name: topic, partitions: seq![partition] }],
            },
        ),
        RequestOf::AddOffsetsToTxn { actor, group } => RequestView::AddOffsets(
            AddOffsetsAskView {
                transactional_id: actor.transactional_id,
                producer_epoch: actor.producer_epoch,
            },
        ),
        RequestOf::EndTxn { actor, committed } => RequestView::EndTxn(
            EndTxnAskView {
                transactional_id: actor.transactional_id,
                producer_epoch: actor.producer_epoch,
                committed,
            },
        ),
        RequestOf::TxnOffsetCommit { actor, group, topic, offset } => RequestView::TxnOffsets(
            TxnOffsetsAskView {
                transactional_id: actor.transactional_id,
                group_id: group,
                producer_epoch: actor.producer_epoch,
                topics: seq![
                    TxnOffsetTopicView {
                        name: topic,
                        partitions: seq![
                            CommitPartitionView {
                                partition_index: 0,
                                committed_offset: offset,
                                committed_metadata: None,
                            },
                        ],
                    },
                ],
            },
        ),
    }
}

/// Whether an answer is what a reader makes of the whole of the subject's
/// Metadata.
pub open spec fn shows_cluster(
    answer: MetadataAnswer,
    reply: MetadataReplyView,
) -> bool {
    &&& calibration::shows_metadata(answer, reply)
    &&& answer.controller_id == reply.controller_id
    &&& forall|i: int, j: int|
        0 <= i < reply.topics.len() && 0 <= j < reply.topics[i].partitions.len() ==> shows_placing(
            #[trigger] answer.topics@[i].partitions@[j],
            reply.topics[i].partitions[j],
        )
}

/// Whether a row says of a partition what a reply does: which it is, and who
/// holds copies.
pub open spec fn shows_placing(row: PartitionRow, reply: PartitionReplyView) -> bool {
    &&& row.index == reply.partition_index
    &&& row.replicas@ == reply.replica_nodes
    &&& row.isr@ == reply.isr_nodes
}

/// Whether rows are what a reader makes of the subject's CreateTopics.
pub open spec fn shows_created(
    rows: Seq<CreatedRow>,
    reply: CreateTopicsReplyView,
) -> bool {
    &&& rows.len() == reply.topics.len()
    &&& forall|i: int|
        0 <= i < reply.topics.len() ==> (#[trigger] rows[i]).error.code
            == reply.topics[i].error_code && rows[i].topic_id@ == reply.topics[i].topic_id
}

/// Whether codes are what a reader makes of the subject's DeleteTopics.
pub open spec fn shows_deleted(codes: Seq<ErrorCode>, reply: DeleteTopicsReplyView) -> bool {
    &&& codes.len() == reply.responses.len()
    &&& forall|i: int|
        0 <= i < codes.len() ==> (#[trigger] codes[i]).code == reply.responses[i].error_code
}

/// Whether rows are what a reader makes of the subject's Produce.
pub open spec fn shows_produced(rows: Seq<Vec<ProducedRow>>, reply: ProduceReplyView) -> bool {
    &&& rows.len() == reply.responses.len()
    &&& forall|i: int|
        0 <= i < rows.len() ==> (#[trigger] rows[i])@.len() == reply.responses[i].partitions.len()
    &&& forall|i: int, j: int|
        0 <= i < rows.len() && 0 <= j < rows[i]@.len() ==> (#[trigger] rows[i]@[j]).error.code
            == reply.responses[i].partitions[j].error_code && rows[i]@[j].base_offset
            == reply.responses[i].partitions[j].base_offset
}

/// The producers of aborted transactions.
pub open spec fn producers(rows: Seq<(i64, i64)>) -> Seq<i64> {
    rows.map_values(|row: (i64, i64)| row.0)
}

/// Whether a row names the aborted transactions of one partition of a Fetch.
pub open spec fn shows_aborted(row: FetchedRow, reply: FetchedPartitionView) -> bool {
    reply.log matches Some(log) ==> match log.aborted_transactions {
        Some(rows) => row.aborted matches Some(ids) && ids@ == producers(rows),
        None => row.aborted is None,
    }
}

/// Whether rows are what a reader makes of the subject's ListOffsets.
pub open spec fn shows_offsets(topics: Seq<OffsetTopic>, reply: ListOffsetsReplyView) -> bool {
    &&& topics.len() == reply.topics.len()
    &&& forall|i: int|
        0 <= i < topics.len() ==> (#[trigger] topics[i]).name@ == reply.topics[i].name
            && topics[i].partitions@.len() == reply.topics[i].partitions.len()
    &&& forall|i: int, j: int|
        0 <= i < topics.len() && 0 <= j < topics[i].partitions@.len() ==> (
        #[trigger] topics[i].partitions@[j]).error.code
            == reply.topics[i].partitions[j].error_code && topics[i].partitions@[j].offset
            == reply.topics[i].partitions[j].offset
}

/// Whether an answer is what a reader makes of the subject's FindCoordinator.
pub open spec fn shows_coordinator(
    answer: FindCoordinatorAnswer,
    reply: FindCoordinatorReplyView,
) -> bool {
    &&& reply.one matches Some(one) ==> answer.error.code == one.error_code && answer.host@
        == one.host && answer.port == one.port
    &&& answer.coordinators@.len() == reply.coordinators.len()
    &&& forall|i: int|
        0 <= i < reply.coordinators.len() ==> {
            let row = #[trigger] answer.coordinators@[i];
            row.error.code == reply.coordinators[i].error_code && row.key@
                == reply.coordinators[i].key && row.host@ == reply.coordinators[i].host
                && row.port == reply.coordinators[i].port
        }
}

/// Whether rows are what a reader makes of the subject's OffsetCommit.
pub open spec fn shows_commits(topics: Seq<CommitTopic>, reply: OffsetCommitReplyView) -> bool {
    &&& topics.len() == reply.topics.len()
    &&& forall|i: int|
        0 <= i < topics.len() ==> (#[trigger] topics[i]).name@ == reply.topics[i].name
            && topics[i].topic_id@ == reply.topics[i].topic_id && topics[i].partitions@.len()
            == reply.topics[i].partitions.len()
    &&& forall|i: int, j: int|
        0 <= i < topics.len() && 0 <= j < topics[i].partitions@.len() ==> (
        #[trigger] topics[i].partitions@[j]).code == reply.topics[i].partitions[j].error_code
}

/// Whether rows are what a reader makes of some topics' committed offsets.
pub open spec fn shows_committed(topics: Seq<CommittedTopic>, rows: Seq<OffsetRowsView>) -> bool {
    &&& topics.len() == rows.len()
    &&& forall|i: int|
        0 <= i < topics.len() ==> (#[trigger] topics[i]).name@ == rows[i].name
            && topics[i].topic_id@ == rows[i].topic_id && topics[i].partitions@.len()
            == rows[i].partitions.len()
    &&& forall|i: int, j: int|
        0 <= i < topics.len() && 0 <= j < topics[i].partitions@.len() ==> {
            let row = #[trigger] topics[i].partitions@[j];
            row.error.code == rows[i].partitions[j].error_code && row.offset
                == rows[i].partitions[j].committed_offset && wire::opt_view(row.metadata)
                == rows[i].partitions[j].metadata
        }
}

/// Whether an answer is what a reader makes of the subject's OffsetFetch.
pub open spec fn shows_offset_fetch(
    answer: OffsetFetchAnswer,
    reply: OffsetFetchReplyView,
) -> bool {
    &&& shows_committed(answer.topics@, reply.topics)
    &&& answer.groups@.len() == reply.groups.len()
    &&& forall|i: int|
        0 <= i < reply.groups.len() ==> {
            let entry = #[trigger] answer.groups@[i];
            entry.group_id@ == reply.groups[i].group_id && entry.error.code
                == reply.groups[i].error_code && shows_committed(
                entry.topics@,
                reply.groups[i].topics,
            )
        }
}

/// Whether codes are what a reader makes of a transaction's, by topic and
/// partition.
pub open spec fn shows_codes(codes: Seq<Vec<ErrorCode>>, reply: TxnCodesReplyView) -> bool {
    &&& codes.len() == reply.topics.len()
    &&& forall|i: int|
        0 <= i < codes.len() ==> (#[trigger] codes[i])@.len() == reply.topics[i].partitions.len()
    &&& forall|i: int, j: int|
        0 <= i < codes.len() && 0 <= j < codes[i]@.len() ==> (#[trigger] codes[i]@[j]).code
            == reply.topics[i].partitions[j].error_code
}

/// Whether an answer is what a reader makes of the whole of a heartbeat's.
pub open spec fn shows_membership(answer: ConsumerGroupAnswer, reply: ConsumerGroupReplyView)
    -> bool {
    &&& calibration_groups::shows_heartbeat(answer, reply)
    &&& match reply.assignment {
        Some(given) => answer.assignment matches Some(read) && calibration_state::shows_assignment(
            read@,
            given,
        ),
        None => answer.assignment is None,
    }
}

/// Whether a response is what a reader makes of a body.
pub open spec fn shows(response: Response, body: BodyView) -> bool {
    match body {
        BodyView::ApiVersions(reply) => response matches Response::ApiVersions(answer)
            && calibration::shows_api_versions(answer, reply),
        BodyView::Metadata(reply) => response matches Response::Metadata(answer) && shows_cluster(
            answer,
            reply,
        ),
        BodyView::CreateTopics(reply) => response matches Response::CreateTopics(rows)
            && shows_created(rows@, reply),
        BodyView::DeleteTopics(reply) => response matches Response::DeleteTopics(codes)
            && shows_deleted(codes@, reply),
        BodyView::Produce(reply) => response matches Response::Produce(rows) && shows_produced(
            rows@,
            reply,
        ),
        BodyView::Fetch(reply) => response matches Response::Fetch(answer)
            && calibration_log::shows_fetch(answer, reply) && shows_aborted(
            answer.topics@[0].partitions@[0],
            reply.responses[0].partitions[0],
        ),
        BodyView::ListOffsets(reply) => response matches Response::ListOffsets(topics)
            && shows_offsets(topics@, reply),
        BodyView::FindCoordinator(reply) => response matches Response::FindCoordinator(answer)
            && shows_coordinator(answer, reply),
        BodyView::OffsetCommit(reply) => response matches Response::OffsetCommit(topics)
            && shows_commits(topics@, reply),
        BodyView::OffsetFetch(reply) => response matches Response::OffsetFetch(answer)
            && shows_offset_fetch(answer, reply),
        BodyView::JoinGroup(reply) => response matches Response::JoinGroup(answer)
            && calibration_groups::shows_join(answer, reply) && answer.generation_id
            == reply.generation_id && answer.leader@ == reply.leader,
        BodyView::SyncGroup(reply) => response matches Response::SyncGroup(answer)
            && answer.error.code == reply.error_code && answer.assignment@ == reply.assignment,
        BodyView::Code(code) => response matches Response::Code(answer) && answer.code == code,
        BodyView::DescribeGroups(reply) => response matches Response::DescribeGroups(rows)
            && rows@.len() == reply.groups.len() && forall|i: int|
            0 <= i < rows@.len() ==> calibration_groups::shows_described(
                #[trigger] rows@[i],
                reply.groups[i],
            ),
        BodyView::ConsumerGroup(reply) => response matches Response::ConsumerGroup(answer)
            && shows_membership(answer, reply),
        BodyView::SaslHandshake(reply) => response matches Response::SaslHandshake(answer)
            && answer.error.code == reply.error_code && text::views(answer.mechanisms@)
            == reply.mechanisms,
        BodyView::SaslAuthenticate(reply) => response matches Response::SaslAuthenticate(answer)
            && answer.error.code == reply.error_code && answer.auth_bytes@ == reply.auth_bytes,
        BodyView::InitProducerId(reply) => response matches Response::InitProducerId(answer)
            && answer.error.code == reply.error_code && answer.producer_id == reply.producer_id
            && answer.producer_epoch == reply.producer_epoch,
        BodyView::TxnCodes(reply) => response matches Response::Codes(codes) && shows_codes(
            codes@,
            reply,
        ),
    }
}

/// The response header that a reader expects.
pub open spec fn header_of(setting: Setting, api_key: i16, version: i16) -> i16 {
    if api_key == API_VERSIONS {
        0
    } else if api_key == METADATA {
        if version >= serve::METADATA_FLEXIBLE {
            1
        } else {
            0
        }
    } else {
        (setting.header)(api_key, version)
    }
}

/// Where a broker listens.
pub open spec fn address_of(port: i32) -> Seq<char> {
    find::endpoint("127.0.0.1"@, port)
}

/// Whether the broker in some place is up and listens at an address.
pub open spec fn listens(state: ClusterView, k: int, addr: Seq<char>) -> bool {
    &&& 0 <= k < state.ports.len()
    &&& addr == address_of(state.ports[k])
    &&& !state.down.contains(state::spec_node_at(k))
}

/// Whether a broker that is up listens at an address.
pub open spec fn is_heard(state: ClusterView, addr: Seq<char>) -> bool {
    exists|k: int| listens(state, k, addr)
}

/// What connecting to an address comes to.
pub open spec fn connects(world: World, addr: Seq<char>, event: Event, next: World) -> bool {
    match event {
        Event::Connected(conn) => {
            &&& conn == world.lines.len()
            &&& exists|k: int| #[trigger]
                listens(world.state, k, addr) && next == (World {
                    state: world.state,
                    lines: world.lines.push(
                        Line {
                            node_id: state::spec_node_at(k),
                            sasl: SaslView::Unstarted,
                            open: true,
                            queued: Seq::empty(),
                        },
                    ),
                })
        },
        Event::Refused(_) => next == world && !is_heard(world.state, addr),
        _ => false,
    }
}

/// Whether a connection still gets answers at a version of an api.
pub open spec fn answers(
    setting: Setting,
    world: World,
    conn: usize,
    api_key: i16,
    version: i16,
) -> bool {
    &&& conn < world.lines.len()
    &&& world.lines[conn as int].open
    &&& !world.state.down.contains(world.lines[conn as int].node_id)
    &&& serve::spec_serves(setting.schema, api_key, version)
}

/// What the subject does about a request on a connection, and the world then.
pub open spec fn exchanged(
    setting: Setting,
    world: World,
    conn: usize,
    api_key: i16,
    version: i16,
    correlation: i32,
    request: RequestView,
) -> (World, AnswerView) {
    let k = conn as int;
    if !answers(setting, world, conn, api_key, version) {
        (
            World {
                lines: if conn < world.lines.len() {
                    world.lines.update(k, Line { open: false, ..world.lines[k] })
                } else {
                    world.lines
                },
                ..world
            },
            AnswerView::Close,
        )
    } else {
        let line = world.lines[k];
        let (state, sasl, answer) = serve::spec_serve(
            world.state,
            line.sasl,
            request,
            Asked {
                correlation_id: correlation,
                api_version: version,
                header_version: (setting.header)(api_key, version),
            },
            setting.schema,
            line.node_id,
            setting.faults,
        );
        (
            World {
                state,
                lines: world.lines.update(k, Line { sasl, open: answer !is Close, ..line }),
            },
            answer,
        )
    }
}

/// Whether an answer is framed as its reader expects.
pub open spec fn is_framed(
    framing: Framing,
    correlation: i32,
    header: i16,
    decode_at: i16,
) -> bool {
    &&& framing.correlation_id == correlation
    &&& framing.header_version == header
    &&& framing.encode_at == decode_at
    &&& !framing.trailing_garbage
}

/// What a reader hears of what the subject did: an answer that is framed as
/// expected shows its body, and one that is not is a violation.
pub open spec fn heard(
    answer: AnswerView,
    correlation: i32,
    header: i16,
    decode_at: i16,
    event: Event,
) -> bool {
    match answer {
        AnswerView::Frame(framing, body) => if is_framed(framing, correlation, header, decode_at) {
            event matches Event::Answer { response, .. } && shows(response, body)
        } else {
            event matches Event::Failed(CheckError::Violation(_))
        },
        _ => event is Failed,
    }
}

/// Whether the errors of a commit are called what the codec calls them.
pub open spec fn names_codes(setting: Setting, response: Response) -> bool {
    response matches Response::OffsetCommit(topics) ==> forall|i: int, j: int|
        0 <= i < topics@.len() && 0 <= j < topics@[i].partitions@.len() ==> (
        #[trigger] topics@[i].partitions@[j]).shown@ == (setting.shown)(
            topics@[i].partitions@[j].code,
        )
}

/// Whether a cluster holds nothing under a topic's name.
pub open spec fn is_free(state: ClusterView, topic: Seq<char>) -> bool {
    &&& !state.created.contains_key(topic)
    &&& forall|index: i32| !#[trigger] state.logs.contains_key((topic, index))
    &&& forall|group: Seq<char>, index: i32|
        !#[trigger] state.committed.contains_key((group, topic, index))
}

/// Whether no topic and no transaction has a name that a reading of the clock
/// goes into.
pub open spec fn is_unused(state: ClusterView, nanos: u128) -> bool {
    &&& forall|tag: Seq<char>, pid: u32|
        is_free(state, #[trigger] ctx::spec_unique_topic(tag, pid, nanos))
    &&& forall|tag: Seq<char>, pid: u32|
        !state.txns.contains_key(#[trigger] ctx::spec_unique_transactional_id(tag, pid, nanos))
}

/// The version from which LeaveGroup lists the members that leave.
pub const LEAVE_GROUP_BATCHED: i16 = 3;

/// Whether bytes are the probe batch under a stamp, encoded. The base offset
/// leads a batch's bytes.
pub open spec fn encodes_probe(setting: Setting, bytes: Seq<u8>, stamp: BatchStamp) -> bool {
    &&& (setting.batches)(bytes) matches Some(batches) && batches.len() == 1
        && batch::is_probe_batch(batches[0], stamp)
    &&& bytes.len() > server_log::BEFORE_CRC
    &&& server_log::be_i64(bytes) == 0
}

/// Whether a decoding is what the codec reads bytes as.
pub open spec fn decodes(
    setting: Setting,
    bytes: Seq<u8>,
    decoded: Result<Vec<RecordBatch>, String>,
) -> bool {
    match (setting.batches)(bytes) {
        Some(batches) => decoded matches Ok(rows) && rows@ == batches,
        None => decoded is Err,
    }
}

/// The world after a request that nobody waits for the answer of.
pub open spec fn sent(
    setting: Setting,
    world: World,
    conn: usize,
    version: i16,
    correlation: i32,
    request: RequestOf<Seq<char>, Seq<u8>>,
) -> World {
    let (after, answer) = exchanged(
        setting,
        world,
        conn,
        wire::spec_api_key(request),
        version,
        correlation,
        received(setting, world.state, request),
    );
    match answer {
        AnswerView::Frame(framing, _) => {
            let line = after.lines[conn as int];
            World {
                lines: after.lines.update(
                    conn as int,
                    Line { queued: line.queued.push(framing.correlation_id), ..line },
                ),
                ..after
            }
        },
        _ => after,
    }
}

/// What reading a frame comes to: the first that was not read, which its
/// correlation id leads, or none.
pub open spec fn reads(world: World, conn: usize, event: Event, next: World) -> bool {
    let k = conn as int;
    if conn < world.lines.len() && world.lines[k].queued.len() > 0 {
        &&& event matches Event::Frame(bytes) && bytes@.len() >= 4 && server_log::be_i32(bytes@)
            == world.lines[k].queued[0]
        &&& next == (World {
            lines: world.lines.update(
                k,
                Line { queued: world.lines[k].queued.skip(1), ..world.lines[k] },
            ),
            ..world
        })
    } else {
        event is Failed && next == world
    }
}

/// Whether bytes are the probe batch around a gzipped payload, encoded. With
/// the batch restamped they are others.
pub open spec fn encodes_gzip(setting: Setting, bytes: Seq<u8>, payload: Seq<u8>) -> bool {
    &&& (setting.batches)(bytes) matches Some(batches) && batches.len() == 1
        && batch::is_gzip_batch(batches[0], payload)
    &&& bytes.len() >= server_log::BATCH_HEAD
    &&& (setting.rewritten)(bytes) matches Some(other) && !server_log::is_as_sent(bytes, other)
}

/// Every connection to a broker, closed.
pub open spec fn hung_up(lines: Seq<Line>, node_id: i32) -> Seq<Line> {
    lines.map_values(
        |line: Line|
            if line.node_id == node_id {
                Line { open: false, ..line }
            } else {
                line
            },
    )
}

/// Whether an event, and the world after it, are what comes of an action. The
/// clock is never read twice to the same effect. What a SCRAM client says is
/// left open.
#[verifier::opaque]
pub open spec fn performs(
    setting: Setting,
    world: World,
    action: ActionOf<Seq<char>, Seq<u8>>,
    event: Event,
    next: World,
) -> bool {
    match action {
        ActionOf::Connect { addr } => connects(world, addr, event, next),
        ActionOf::Call { conn, version, correlation, request } => {
            let api_key = wire::spec_api_key(request);
            let (after, answer) = exchanged(
                setting,
                world,
                conn,
                api_key,
                version,
                correlation,
                received(setting, world.state, request),
            );
            &&& next == after
            &&& heard(answer, correlation, header_of(setting, api_key, version), version, event)
            &&& event matches Event::Answer { response, .. } ==> names_codes(setting, response)
        },
        ActionOf::Probe { conn, version, correlation, decode_at, .. } => {
            let (after, answer) = exchanged(
                setting,
                world,
                conn,
                API_VERSIONS,
                version,
                correlation,
                RequestView::ApiVersions,
            );
            next == after && heard(answer, correlation, 0, decode_at, event)
        },
        ActionOf::Pause => event is Paused && next == world,
        ActionOf::Stamp => next == world && (event matches Event::Stamped(nanos) && is_unused(
            world.state,
            nanos,
        )),
        ActionOf::Encode { stamp } => next == world && (event matches Event::Encoded(bytes)
            && encodes_probe(setting, bytes@, stamp)),
        ActionOf::Decode { bytes } => next == world && (event matches Event::Decoded(decoded)
            && decodes(setting, bytes, decoded)),
        ActionOf::Send { conn, version, correlation, request } => event is Sent && next == sent(
            setting,
            world,
            conn,
            version,
            correlation,
            request,
        ),
        ActionOf::Read { conn } => reads(world, conn, event, next),
        ActionOf::EncodeRecords => next == world && event is Encoded,
        ActionOf::EncodeGzip { payload } => next == world && (event matches Event::Encoded(bytes)
            && encodes_gzip(setting, bytes@, payload)),
        ActionOf::Stop { node_id, .. } => event matches Event::Controlled(done) && done is Ok
            && next == (World {
            state: state::spec_stop(world.state, node_id),
            lines: hung_up(world.lines, node_id),
        }),
        ActionOf::Start { node_id, .. } => event matches Event::Controlled(done) && done is Ok
            && next == (World { state: state::spec_start(world.state, node_id), ..world }),
        ActionOf::ScramFirst
        | ActionOf::ScramFinal { .. }
        | ActionOf::ScramVerify { .. } => true,
    }
}

/// Whether the event at a place of a tape, and the world after it, are what
/// comes of the action that a flow asks for there.
pub open spec fn follows<V>(
    setting: Setting,
    tape: Seq<Event>,
    worlds: Seq<World>,
    i: int,
    flow: FlowView<V>,
) -> bool {
    flow matches Err(HaltView::Ask(action)) ==> performs(
        setting,
        worlds[i],
        action,
        tape[i],
        worlds[i + 1],
    )
}

/// Whether a tape is a check's run against the subject, through some worlds.
pub open spec fn is_run(
    setting: Setting,
    check: ServerCheck,
    ctx: ServerCtx,
    tape: Seq<Event>,
    worlds: Seq<World>,
) -> bool {
    &&& worlds.len() == tape.len() + 1
    &&& forall|i: int|
        0 <= i < tape.len() ==> follows(
            setting,
            tape,
            worlds,
            i,
            check.spec_flow(ctx, #[trigger] tape.take(i)),
        )
}

/// A codec that is sound and new enough for every check: it speaks flexible
/// versions of ApiVersions and Metadata, has a version number from the future
/// to ask for, addresses topics both by name and by id, lists who leaves a
/// group, and speaks to transactions as a client does.
pub open spec fn is_modern(schema: Schema) -> bool {
    &&& calibration::is_sound(schema)
    &&& 3 <= schema.api_versions.max <= i16::MAX - 7
    &&& schema.metadata.max >= 10
    &&& schema.produce.min <= flows::PRODUCE_NAME_MAX
    &&& schema.produce.max >= flows::PRODUCE_ID_MIN
    &&& schema.fetch.min <= flows::FETCH_NAME_MAX
    &&& schema.fetch.max >= flows::FETCH_ID_MIN
    &&& schema.list_offsets.max >= 1
    &&& schema.join_group.max >= wire::JOIN_GROUP_MEMBER_ID_REQUIRED
    &&& schema.leave_group.max >= LEAVE_GROUP_BATCHED
    &&& schema.init_producer_id.min <= txn_flows::TXN_INIT_MAX
    &&& schema.add_partitions_to_txn.min <= txn_flows::ADD_PARTITIONS_CLIENT_MAX
    &&& schema.end_txn.min <= txn_flows::END_TXN_MAX
    &&& schema.add_offsets_to_txn.min <= server_txn::ADD_OFFSETS_CLIENT_MAX
    &&& schema.txn_offset_commit.min <= server_txn::TXN_OFFSET_COMMIT_CLIENT_MAX
}

/// Whether every broker of a cluster has a port of its own.
pub open spec fn is_placed(state: ClusterView) -> bool {
    &&& calibration::is_reachable(state)
    &&& forall|i: int, j: int|
        0 <= i < j < state.ports.len() ==> #[trigger] state.ports[i] != #[trigger] state.ports[j]
}

/// Whether a cluster is up: every broker can be reached, each at a port of
/// its own, and none is stopped.
pub open spec fn is_up(state: ClusterView) -> bool {
    &&& is_placed(state)
    &&& state.down == Set::<i32>::empty()
}

/// Whether one world has every connection of another, as it was there.
pub open spec fn extends(before: World, after: World) -> bool {
    &&& before.lines.len() <= after.lines.len()
    &&& forall|k: int| 0 <= k < before.lines.len() ==> after.lines[k] == before.lines[k]
}

/// Whether a connection is open.
pub open spec fn is_open(world: World, conn: usize) -> bool {
    conn < world.lines.len() && world.lines[conn as int].open
}

/// Whether a connection is open, to a broker that is up.
pub open spec fn is_served(world: World, conn: usize) -> bool {
    is_open(world, conn) && !world.state.down.contains(world.lines[conn as int].node_id)
}

/// Whether the suite speaks the subject's codec, and has learned what it
/// advertises.
pub open spec fn is_learned(setting: Setting, ctx: ServerCtx) -> bool {
    &&& is_modern(setting.schema)
    &&& ctx.schema == setting.schema
    &&& ctx.names.not_coordinator@ == (setting.shown)(wire::NOT_COORDINATOR)
    &&& ctx.discovery matches Ok(keys) && keys@ == topics::spec_advertised_keys(setting.schema)
}

/// Whether the suite is set on the subject: it has learned what it advertises,
/// and was given the address of one of its brokers.
pub open spec fn is_set(setting: Setting, ctx: ServerCtx, state: ClusterView) -> bool {
    &&& is_learned(setting, ctx)
    &&& is_up(state)
    &&& is_heard(state, ctx.addr@)
}

proof fn lemma_advertised(keys: Seq<ApiVersion>, api_key: i16, j: int)
    requires
        0 <= j < keys.len(),
        keys[j].api_key == api_key,
        forall|i: int| 0 <= i < j ==> (#[trigger] keys[i]).api_key != api_key,
    ensures
        ctx::spec_advertised(keys, api_key) == Some((keys[j].min_version, keys[j].max_version)),
    decreases j,
{
    if j > 0 {
        let rest = keys.skip(1);
        assert forall|i: int| 0 <= i < j - 1 implies (#[trigger] rest[i]).api_key != api_key by {
            assert(rest[i] == keys[i + 1]);
        }
        lemma_advertised(rest, api_key, j - 1);
        assert(keys[0].api_key != api_key);
    }
}

/// Whether a range is what the subject advertises for an api, and is one.
pub open spec fn ranges(schema: Schema, api_key: i16, versions: Versions) -> bool {
    &&& ctx::spec_advertised(topics::spec_advertised_keys(schema), api_key) == Some(
        (versions.min, versions.max),
    )
    &&& versions.min <= versions.max
}

/// What the subject advertises.
pub proof fn lemma_ranges(schema: Schema)
    requires
        calibration::is_sound(schema),
    ensures
        ranges(schema, API_VERSIONS, schema.api_versions),
        ranges(schema, METADATA, schema.metadata),
        ranges(schema, CREATE_TOPICS, schema.create_topics),
        ranges(schema, DELETE_TOPICS, schema.delete_topics),
        ranges(schema, PRODUCE, schema.produce),
        ranges(schema, FETCH, schema.fetch),
        ranges(schema, LIST_OFFSETS, schema.list_offsets),
{
    let keys = topics::spec_advertised_keys(schema);
    assert(keys[0].min_version <= keys[0].max_version);
    assert(keys[3].min_version <= keys[3].max_version);
    assert(keys[4].min_version <= keys[4].max_version);
    assert(keys[1].min_version <= keys[1].max_version);
    assert(keys[2].min_version <= keys[2].max_version);
    assert(keys[5].min_version <= keys[5].max_version);
    assert(keys[8].min_version <= keys[8].max_version);
    lemma_advertised(keys, PRODUCE, 1);
    lemma_advertised(keys, FETCH, 2);
    lemma_advertised(keys, LIST_OFFSETS, 5);
    lemma_advertised(keys, DELETE_TOPICS, 8);
    lemma_advertised(keys, API_VERSIONS, 0);
    lemma_advertised(keys, METADATA, 3);
    lemma_advertised(keys, CREATE_TOPICS, 4);
}

/// What the subject advertises of groups and of SASL.
pub proof fn lemma_group_ranges(schema: Schema)
    requires
        calibration::is_sound(schema),
    ensures
        ranges(schema, FIND_COORDINATOR, schema.find_coordinator),
        ranges(schema, DESCRIBE_GROUPS, schema.describe_groups),
        ranges(schema, OFFSET_COMMIT, schema.offset_commit),
        ranges(schema, OFFSET_FETCH, schema.offset_fetch),
        ranges(schema, JOIN_GROUP, schema.join_group),
        ranges(schema, SYNC_GROUP, schema.sync_group),
        ranges(schema, HEARTBEAT, schema.heartbeat),
        ranges(schema, LEAVE_GROUP, schema.leave_group),
        ranges(schema, CONSUMER_GROUP_HEARTBEAT, schema.consumer_group_heartbeat),
        ranges(schema, SASL_HANDSHAKE, schema.sasl_handshake),
        ranges(schema, SASL_AUTHENTICATE, schema.sasl_authenticate),
{
    let keys = topics::spec_advertised_keys(schema);
    assert(keys[6].min_version <= keys[6].max_version);
    lemma_advertised(keys, FIND_COORDINATOR, 6);
    assert(keys[7].min_version <= keys[7].max_version);
    lemma_advertised(keys, DESCRIBE_GROUPS, 7);
    assert(keys[14].min_version <= keys[14].max_version);
    lemma_advertised(keys, OFFSET_COMMIT, 14);
    assert(keys[15].min_version <= keys[15].max_version);
    lemma_advertised(keys, OFFSET_FETCH, 15);
    assert(keys[16].min_version <= keys[16].max_version);
    lemma_advertised(keys, JOIN_GROUP, 16);
    assert(keys[17].min_version <= keys[17].max_version);
    lemma_advertised(keys, SYNC_GROUP, 17);
    assert(keys[18].min_version <= keys[18].max_version);
    lemma_advertised(keys, HEARTBEAT, 18);
    assert(keys[19].min_version <= keys[19].max_version);
    lemma_advertised(keys, LEAVE_GROUP, 19);
    assert(keys[20].min_version <= keys[20].max_version);
    lemma_advertised(keys, CONSUMER_GROUP_HEARTBEAT, 20);
    assert(keys[21].min_version <= keys[21].max_version);
    lemma_advertised(keys, SASL_HANDSHAKE, 21);
    assert(keys[22].min_version <= keys[22].max_version);
    lemma_advertised(keys, SASL_AUTHENTICATE, 22);
}

/// What the subject advertises of transactions.
pub proof fn lemma_txn_ranges(schema: Schema)
    requires
        calibration::is_sound(schema),
    ensures
        ranges(schema, INIT_PRODUCER_ID, schema.init_producer_id),
        ranges(schema, ADD_PARTITIONS_TO_TXN, schema.add_partitions_to_txn),
        ranges(schema, END_TXN, schema.end_txn),
        ranges(schema, ADD_OFFSETS_TO_TXN, schema.add_offsets_to_txn),
        ranges(schema, TXN_OFFSET_COMMIT, schema.txn_offset_commit),
{
    let keys = topics::spec_advertised_keys(schema);
    assert(keys[9].min_version <= keys[9].max_version);
    lemma_advertised(keys, INIT_PRODUCER_ID, 9);
    assert(keys[10].min_version <= keys[10].max_version);
    lemma_advertised(keys, ADD_PARTITIONS_TO_TXN, 10);
    assert(keys[11].min_version <= keys[11].max_version);
    lemma_advertised(keys, END_TXN, 11);
    assert(keys[12].min_version <= keys[12].max_version);
    lemma_advertised(keys, ADD_OFFSETS_TO_TXN, 12);
    assert(keys[13].min_version <= keys[13].max_version);
    lemma_advertised(keys, TXN_OFFSET_COMMIT, 13);
}

/// Two brokers that are up listen at addresses of their own.
pub proof fn lemma_own_address(state: ClusterView, addr: Seq<char>, k: int, l: int)
    requires
        is_placed(state),
        listens(state, k, addr),
        listens(state, l, addr),
    ensures
        k == l,
{
    let lead = "127.0.0.1"@ + ":"@;
    let a = text::dec(state.ports[k] as int);
    let b = text::dec(state.ports[l] as int);
    assert(1 <= state.ports[k] && 1 <= state.ports[l]);
    assert(a =~= addr.skip(lead.len() as int));
    assert(b =~= addr.skip(lead.len() as int));
    naming::lemma_dec_tells_apart(state.ports[k] as nat, state.ports[l] as nat);
    assert(state.ports[k] == state.ports[l]);
}

/// Connecting to a broker that listens.
pub proof fn lemma_connect(
    setting: Setting,
    tape: Seq<Event>,
    worlds: Seq<World>,
    at: int,
    addr: Seq<char>,
)
    requires
        0 <= at <= tape.len(),
        is_placed(worlds[at].state),
        is_heard(worlds[at].state, addr),
        at < tape.len() ==> follows(
            setting,
            tape,
            worlds,
            at,
            tape::spec_connect(tape.take(at), at, addr),
        ),
    ensures
        match tape::spec_connect(tape, at, addr) {
            Ok((conn, to)) => {
                &&& to == at + 1 <= tape.len()
                &&& worlds[to].state == worlds[at].state
                &&& extends(worlds[at], worlds[to])
                &&& worlds[at].lines.len() == conn < worlds[to].lines.len()
                &&& is_open(worlds[to], conn)
                &&& worlds[to].lines[conn as int].sasl == SaslView::Unstarted
                &&& worlds[to].lines[conn as int].queued.len() == 0
                &&& forall|k: int| #[trigger]
                    listens(worlds[at].state, k, addr) ==> worlds[to].lines[conn as int].node_id
                        == state::spec_node_at(k)
                &&& forall|i: int|
                    at < i <= tape.len() ==> tape::spec_connect(#[trigger] tape.take(i), at, addr)
                        == Ok::<(usize, int), HaltView>((conn, to))
            },
            Err(HaltView::Ask(_)) => at == tape.len(),
            _ => false,
        },
{
    reveal(performs);
    if at < tape.len() {
        let known = choose|k: int| listens(worlds[at].state, k, addr);
        assert(connects(worlds[at], addr, tape[at], worlds[at + 1]));
        assert(listens(worlds[at].state, known, addr));
        assert forall|k: int| #[trigger] listens(worlds[at].state, k, addr) implies k == known by {
            lemma_own_address(worlds[at].state, addr, k, known);
        }
    }
}

/// Whether a flow has ended in a pass, if it has ended.
pub open spec fn passed(flow: FlowView<VerdictView>) -> bool {
    tape::spec_conclude(flow) matches StepView::Done(verdict) ==> verdict == VerdictView::Pass
}

/// Whether a check has passed, if it has come to a verdict on a tape.
pub open spec fn passes(check: ServerCheck, ctx: ServerCtx, tape: Seq<Event>) -> bool {
    passed(check.spec_flow(ctx, tape))
}

/// Whether faults leave the framing of a request's answer as it should be.
pub open spec fn frames(
    faults: Seq<Fault>,
    version: i16,
    request: RequestOf<Seq<char>, Seq<u8>>,
) -> bool {
    match request {
        RequestOf::Metadata { .. } => !faults.contains(Fault::MetadataNonFlexibleHeader),
        RequestOf::Produce { .. } => version != serve::MISSHAPEN_VERSION || !faults.contains(
            Fault::MisshapesOneProduceVersion,
        ),
        RequestOf::Fetch { .. } => !faults.contains(Fault::FetchTrailingGarbage),
        _ => true,
    }
}

/// A request on a connection that gets answers.
pub proof fn lemma_call(
    setting: Setting,
    tape: Seq<Event>,
    worlds: Seq<World>,
    at: int,
    label: Label<Seq<char>>,
    conn: usize,
    version: i16,
    correlation: i32,
    request: RequestOf<Seq<char>, Seq<u8>>,
)
    requires
        0 <= at <= tape.len(),
        answers(setting, worlds[at], conn, wire::spec_api_key(request), version),
        at < tape.len() ==> follows(
            setting,
            tape,
            worlds,
            at,
            tape::spec_call(
                tape.take(at),
                at,
                label,
                ActionOf::Call { conn, version, correlation, request },
            ),
        ),
        exchanged(
            setting,
            worlds[at],
            conn,
            wire::spec_api_key(request),
            version,
            correlation,
            received(setting, worlds[at].state, request),
        ).1 is Frame,
        request !is ApiVersions,
        frames(setting.faults, version, request),
    ensures
        match tape::spec_call(
            tape,
            at,
            label,
            ActionOf::Call { conn, version, correlation, request },
        ) {
            Ok((response, to)) => {
                let (after, answer) = exchanged(
                    setting,
                    worlds[at],
                    conn,
                    wire::spec_api_key(request),
                    version,
                    correlation,
                    received(setting, worlds[at].state, request),
                );
                &&& to == at + 1 <= tape.len()
                &&& worlds[to] == after
                &&& shows(response, answer->Frame_1)
                &&& request !is SaslHandshake && request !is SaslAuthenticate ==> worlds[to].lines
                    == worlds[at].lines
                &&& forall|i: int|
                    at < i <= tape.len() ==> tape::spec_call(
                        #[trigger] tape.take(i),
                        at,
                        label,
                        ActionOf::Call { conn, version, correlation, request },
                    ) == Ok::<(Response, int), HaltView>((response, to))
            },
            Err(HaltView::Ask(_)) => at == tape.len(),
            _ => false,
        },
{
    reveal(performs);
    if at < tape.len() && request !is SaslHandshake && request !is SaslAuthenticate {
        assert(worlds[at + 1].lines =~= worlds[at].lines);
    }
}

/// A request whose answer is not framed as it should be.
pub proof fn lemma_misframed(
    setting: Setting,
    tape: Seq<Event>,
    worlds: Seq<World>,
    at: int,
    label: Label<Seq<char>>,
    conn: usize,
    version: i16,
    correlation: i32,
    request: RequestOf<Seq<char>, Seq<u8>>,
)
    requires
        0 <= at <= tape.len(),
        answers(setting, worlds[at], conn, wire::spec_api_key(request), version),
        at < tape.len() ==> follows(
            setting,
            tape,
            worlds,
            at,
            tape::spec_call(
                tape.take(at),
                at,
                label,
                ActionOf::Call { conn, version, correlation, request },
            ),
        ),
        exchanged(
            setting,
            worlds[at],
            conn,
            wire::spec_api_key(request),
            version,
            correlation,
            received(setting, worlds[at].state, request),
        ).1 matches AnswerView::Frame(framing, _) && !is_framed(
            framing,
            correlation,
            header_of(setting, wire::spec_api_key(request), version),
            version,
        ),
    ensures
        match tape::spec_call(
            tape,
            at,
            label,
            ActionOf::Call { conn, version, correlation, request },
        ) {
            Ok(_) => false,
            Err(HaltView::Ask(_)) => at == tape.len(),
            Err(halt) => trial::fails(halt),
        },
{
    reveal(performs);
}

/// A Metadata request on a connection that gets answers.
pub proof fn lemma_metadata(
    setting: Setting,
    tape: Seq<Event>,
    worlds: Seq<World>,
    at: int,
    label: Label<Seq<char>>,
    conn: usize,
    version: i16,
    topic: Option<Seq<char>>,
    correlation: i32,
)
    requires
        0 <= at <= tape.len(),
        !setting.faults.contains(Fault::MetadataNonFlexibleHeader),
        answers(setting, worlds[at], conn, METADATA, version),
        at < tape.len() ==> follows(
            setting,
            tape,
            worlds,
            at,
            asks::spec_ask_metadata(
                tape.take(at),
                at,
                label,
                ActionOf::Call {
                    conn,
                    version,
                    correlation,
                    request: RequestOf::Metadata { topic },
                },
            ),
        ),
    ensures
        match asks::spec_ask_metadata(
            tape,
            at,
            label,
            ActionOf::Call { conn, version, correlation, request: RequestOf::Metadata { topic } },
        ) {
            Ok((answer, to)) => {
                &&& to == at + 1 <= tape.len()
                &&& worlds[to] == worlds[at]
                &&& shows_cluster(
                    answer,
                    topics::spec_metadata(
                        worlds[at].state,
                        received(
                            setting,
                            worlds[at].state,
                            RequestOf::Metadata { topic },
                        )->Metadata_0,
                        correlation,
                        worlds[at].lines[conn as int].node_id,
                        setting.faults,
                    ),
                )
                &&& forall|i: int|
                    at < i <= tape.len() ==> asks::spec_ask_metadata(
                        #[trigger] tape.take(i),
                        at,
                        label,
                        ActionOf::Call {
                            conn,
                            version,
                            correlation,
                            request: RequestOf::Metadata { topic },
                        },
                    ) == Ok::<(MetadataAnswer, int), HaltView>((answer, to))
            },
            Err(HaltView::Ask(_)) => at == tape.len(),
            _ => false,
        },
{
    let request = RequestOf::Metadata { topic };
    lemma_call(setting, tape, worlds, at, label, conn, version, correlation, request);
    if at < tape.len() {
        assert(worlds[at + 1].lines =~= worlds[at].lines);
    }
}

/// The wait before every attempt but the first.
pub proof fn lemma_pause_between(
    setting: Setting,
    tape: Seq<Event>,
    worlds: Seq<World>,
    at: int,
    attempt: int,
)
    requires
        0 <= at <= tape.len(),
        at < tape.len() ==> follows(
            setting,
            tape,
            worlds,
            at,
            tape::spec_pause_between(tape.take(at), at, attempt),
        ),
    ensures
        match tape::spec_pause_between(tape, at, attempt) {
            Ok((_, to)) => {
                &&& at <= to <= tape.len()
                &&& worlds[to] == worlds[at]
                &&& forall|i: int|
                    to <= i <= tape.len() ==> tape::spec_pause_between(
                        #[trigger] tape.take(i),
                        at,
                        attempt,
                    ) == Ok::<((), int), HaltView>(((), to))
            },
            Err(HaltView::Ask(_)) => at == tape.len(),
            _ => false,
        },
{
    reveal(performs);
    if at < tape.len() {
        assert(tape.take(at).len() == at);
    }
}

/// A topic's name that nothing has yet.
pub proof fn lemma_fresh_topic(
    setting: Setting,
    ctx: ServerCtx,
    tape: Seq<Event>,
    worlds: Seq<World>,
    at: int,
    tag: Seq<char>,
)
    requires
        0 <= at <= tape.len(),
        forall|i: int|
            at <= i < tape.len() ==> follows(
                setting,
                tape,
                worlds,
                i,
                ctx::spec_fresh_topic(ctx, #[trigger] tape.take(i), at, tag),
            ),
    ensures
        match ctx::spec_fresh_topic(ctx, tape, at, tag) {
            Ok((topic, to)) => {
                &&& at <= to <= tape.len()
                &&& to == at + 1
                &&& worlds[to] == worlds[at]
                &&& is_free(worlds[at].state, topic)
                &&& topic.len() > 0
                &&& forall|i: int|
                    to <= i <= tape.len() ==> ctx::spec_fresh_topic(
                        ctx,
                        #[trigger] tape.take(i),
                        at,
                        tag,
                    )
                        == Ok::<(Seq<char>, int), HaltView>((topic, to))
            },
            Err(HaltView::Ask(_)) => true,
            _ => false,
        },
{
    reveal(performs);
    reveal_strlit("odradek-accept-");
    if at < tape.len() {
        assert(tape.take(at).len() == at);
    }
}

/// Where the subject's Metadata says that the controller is.
proof fn lemma_controller_address(
    faults: Seq<Fault>,
    state: ClusterView,
    answer: MetadataAnswer,
    correlation: i32,
    node_id: i32,
)
    requires
        trial::spares(faults, Deed::Cluster),
        is_up(state),
        shows_cluster(
            answer,
            topics::spec_metadata(
                state,
                MetadataAskView { topics: Some(Seq::empty()) },
                correlation,
                node_id,
                faults,
            ),
        ),
    ensures
        find::spec_controller_address(answer) == Some(address_of(state.ports[0])),
{
    reveal_strlit("127.0.0.1");
    let brokers = topics::spec_brokers(state, faults);
    assert(answer.brokers@[0].node_id == brokers[0].node_id);
    assert(1 <= state.ports[0] <= 65535);
}

/// A connection to the controller.
pub proof fn lemma_controller(
    setting: Setting,
    ctx: ServerCtx,
    tape: Seq<Event>,
    worlds: Seq<World>,
    at: int,
    bootstrap: usize,
    version: i16,
    correlation: i32,
)
    requires
        trial::spares(setting.faults, Deed::Cluster),
        0 <= at <= tape.len(),
        is_modern(setting.schema),
        is_up(worlds[at].state),
        is_open(worlds[at], bootstrap),
        setting.schema.metadata.min <= version <= setting.schema.metadata.max,
        forall|i: int|
            at <= i < tape.len() ==> follows(
                setting,
                tape,
                worlds,
                i,
                flows::spec_connect_to_controller(
                    ctx,
                    #[trigger] tape.take(i),
                    at,
                    bootstrap,
                    version,
                    correlation,
                ),
            ),
    ensures
        match flows::spec_connect_to_controller(ctx, tape, at, bootstrap, version, correlation) {
            Ok((conn, to)) => {
                &&& at <= to <= tape.len()
                &&& worlds[to].state == worlds[at].state
                &&& extends(worlds[at], worlds[to])
                &&& is_open(worlds[to], conn)
                &&& forall|i: int|
                    to <= i <= tape.len() ==> flows::spec_connect_to_controller(
                        ctx,
                        #[trigger] tape.take(i),
                        at,
                        bootstrap,
                        version,
                        correlation,
                    )
                        == Ok::<(usize, int), HaltView>((conn, to))
            },
            Err(HaltView::Ask(_)) => true,
            _ => false,
        },
{
    lemma_ranges(setting.schema);
    if at < tape.len() {
        assert(tape.take(at).len() == at);
    }
    lemma_metadata(
        setting,
        tape,
        worlds,
        at,
        Label::Named("Metadata"@),
        bootstrap,
        version,
        None,
        correlation,
    );
    match flows::spec_metadata(tape, at, bootstrap, version, None, correlation) {
        Ok((answer, to)) => {
            let state = worlds[at].state;
            lemma_controller_address(
                setting.faults,
                state,
                answer,
                correlation,
                worlds[at].lines[bootstrap as int].node_id,
            );
            let addr = address_of(state.ports[0]);
            assert(listens(state, 0, addr));
            if to < tape.len() {
                assert(tape.take(to).len() == to);
            }
            lemma_connect(setting, tape, worlds, to, addr);
        },
        Err(_) => {},
    }
}

/// A connection for an administrative request.
pub proof fn lemma_admin(
    setting: Setting,
    ctx: ServerCtx,
    tape: Seq<Event>,
    worlds: Seq<World>,
    at: int,
    bootstrap: usize,
    correlation: i32,
)
    requires
        trial::spares(setting.faults, Deed::Cluster),
        0 <= at <= tape.len(),
        is_learned(setting, ctx),
        is_up(worlds[at].state),
        is_open(worlds[at], bootstrap),
        forall|i: int|
            at <= i < tape.len() ==> follows(
                setting,
                tape,
                worlds,
                i,
                flows::spec_admin_conn(ctx, #[trigger] tape.take(i), at, bootstrap, correlation),
            ),
    ensures
        match flows::spec_admin_conn(ctx, tape, at, bootstrap, correlation) {
            Ok((conn, to)) => {
                &&& at <= to <= tape.len()
                &&& worlds[to].state == worlds[at].state
                &&& extends(worlds[at], worlds[to])
                &&& is_open(worlds[to], conn)
                &&& forall|i: int|
                    to <= i <= tape.len() ==> flows::spec_admin_conn(
                        ctx,
                        #[trigger] tape.take(i),
                        at,
                        bootstrap,
                        correlation,
                    )
                        == Ok::<(usize, int), HaltView>((conn, to))
            },
            Err(HaltView::Ask(_)) => true,
            _ => false,
        },
{
    lemma_ranges(setting.schema);
    lemma_controller(
        setting,
        ctx,
        tape,
        worlds,
        at,
        bootstrap,
        setting.schema.metadata.max,
        correlation,
    );
}

/// Whether a request to create a topic leaves the cluster as it was.
pub open spec fn is_dry(validate_only: bool, faults: Seq<Fault>) -> bool {
    validate_only && !faults.contains(Fault::CreateTopicsValidateOnlyCreates)
}

/// What one topic's creation does and answers.
pub proof fn lemma_created_one(
    faults: Seq<Fault>,
    state: ClusterView,
    topic: NewTopicView,
    validate_only: bool,
)
    ensures
        topics::spec_create_topics(
            state,
            CreateTopicsAskView { topics: seq![topic], validate_only },
            faults,
        ) == (
            topics::after_create(state, topic, is_dry(validate_only, faults), faults),
            CreateTopicsReplyView {
                topics: seq![topics::spec_created(state, topic, faults)],
            },
        ),
{
    let one = seq![topic];
    assert(one.drop_last() =~= Seq::empty());
    reveal_with_fuel(topics::create_all, 2);
    assert(topics::create_all(state, one, is_dry(validate_only, faults), faults).1
        =~= seq![topics::spec_created(state, topic, faults)]);
}

/// A CreateTopics request on an open connection.
pub proof fn lemma_create(
    setting: Setting,
    tape: Seq<Event>,
    worlds: Seq<World>,
    at: int,
    label: Label<Seq<char>>,
    conn: usize,
    version: i16,
    correlation: i32,
    topic: Seq<char>,
    replication_factor: i16,
    validate_only: bool,
)
    requires
        0 <= at <= tape.len(),
        is_modern(setting.schema),
        is_up(worlds[at].state),
        is_open(worlds[at], conn),
        setting.schema.create_topics.min <= version <= setting.schema.create_topics.max,
        forall|i: int|
            at <= i < tape.len() ==> follows(
                setting,
                tape,
                worlds,
                i,
                asks::spec_ask_create_topics(
                    #[trigger] tape.take(i),
                    at,
                    label,
                    ActionOf::Call {
                        conn,
                        version,
                        correlation,
                        request: RequestOf::CreateTopics {
                            topic,
                            replication_factor,
                            validate_only,
                        },
                    },
                ),
            ),
    ensures
        match asks::spec_ask_create_topics(
            tape,
            at,
            label,
            ActionOf::Call {
                conn,
                version,
                correlation,
                request: RequestOf::CreateTopics { topic, replication_factor, validate_only },
            },
        ) {
            Ok((rows, to)) => {
                &&& at <= to <= tape.len()
                &&& to == at + 1
                &&& ({
                    let asked = NewTopicView { name: topic, num_partitions: 1, replication_factor };
                    &&& worlds[to].state == topics::after_create(
                        worlds[at].state,
                        asked,
                        is_dry(validate_only, setting.faults),
                        setting.faults,
                    )
                    &&& rows@.len() == 1
                    &&& rows@[0].error.code == topics::creation_code(
                        worlds[at].state,
                        asked,
                        setting.faults,
                    )
                    &&& rows@[0].topic_id@ == topics::spec_mint_topic_id(topic)
                })
                &&& extends(worlds[at], worlds[to])
                &&& forall|i: int|
                    to <= i <= tape.len() ==> asks::spec_ask_create_topics(
                        #[trigger] tape.take(i),
                        at,
                        label,
                        ActionOf::Call {
                            conn,
                            version,
                            correlation,
                            request: RequestOf::CreateTopics {
                                topic,
                                replication_factor,
                                validate_only,
                            },
                        },
                    )
                        == Ok::<(Vec<CreatedRow>, int), HaltView>((rows, to))
            },
            Err(HaltView::Ask(_)) => true,
            _ => false,
        },
{
    lemma_ranges(setting.schema);
    let asked = NewTopicView { name: topic, num_partitions: 1, replication_factor };
    lemma_created_one(setting.faults, worlds[at].state, asked, validate_only);
    if at < tape.len() {
        assert(tape.take(at).len() == at);
    }
    lemma_call(
        setting,
        tape,
        worlds,
        at,
        label,
        conn,
        version,
        correlation,
        RequestOf::CreateTopics { topic, replication_factor, validate_only },
    );
}

} // verus!

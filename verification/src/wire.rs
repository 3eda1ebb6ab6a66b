//! The protocol's vocabulary as the suite uses it: api keys, error codes,
//! and the fields of requests and answers that a decision looks at.

use vstd::prelude::*;
use vstd::string::*;

verus! {

pub const PRODUCE: i16 = 0;
pub const FETCH: i16 = 1;
pub const LIST_OFFSETS: i16 = 2;
pub const METADATA: i16 = 3;
pub const OFFSET_COMMIT: i16 = 8;
pub const OFFSET_FETCH: i16 = 9;
pub const FIND_COORDINATOR: i16 = 10;
pub const JOIN_GROUP: i16 = 11;
pub const HEARTBEAT: i16 = 12;
pub const LEAVE_GROUP: i16 = 13;
pub const SYNC_GROUP: i16 = 14;
pub const DESCRIBE_GROUPS: i16 = 15;
pub const SASL_HANDSHAKE: i16 = 17;
pub const API_VERSIONS: i16 = 18;
pub const CREATE_TOPICS: i16 = 19;
pub const DELETE_TOPICS: i16 = 20;
pub const INIT_PRODUCER_ID: i16 = 22;
pub const ADD_PARTITIONS_TO_TXN: i16 = 24;
pub const ADD_OFFSETS_TO_TXN: i16 = 25;
pub const END_TXN: i16 = 26;
pub const TXN_OFFSET_COMMIT: i16 = 28;
pub const SASL_AUTHENTICATE: i16 = 36;
pub const CONSUMER_GROUP_HEARTBEAT: i16 = 68;

pub const NONE: i16 = 0;
pub const OFFSET_OUT_OF_RANGE: i16 = 1;
pub const UNKNOWN_TOPIC_OR_PARTITION: i16 = 3;
pub const LEADER_NOT_AVAILABLE: i16 = 5;
pub const NOT_LEADER_OR_FOLLOWER: i16 = 6;
pub const COORDINATOR_LOAD_IN_PROGRESS: i16 = 14;
pub const COORDINATOR_NOT_AVAILABLE: i16 = 15;
pub const NOT_COORDINATOR: i16 = 16;
pub const ILLEGAL_GENERATION: i16 = 22;
pub const UNKNOWN_MEMBER_ID: i16 = 25;
pub const UNSUPPORTED_SASL_MECHANISM: i16 = 33;
pub const ILLEGAL_SASL_STATE: i16 = 34;
pub const UNSUPPORTED_VERSION: i16 = 35;
pub const TOPIC_ALREADY_EXISTS: i16 = 36;
pub const INVALID_REPLICATION_FACTOR: i16 = 38;
pub const OUT_OF_ORDER_SEQUENCE_NUMBER: i16 = 45;
pub const INVALID_PRODUCER_EPOCH: i16 = 47;
pub const INVALID_PRODUCER_ID_MAPPING: i16 = 49;
pub const CONCURRENT_TRANSACTIONS: i16 = 51;
pub const SASL_AUTHENTICATION_FAILED: i16 = 58;
pub const TOPIC_DELETION_DISABLED: i16 = 73;
pub const UNSUPPORTED_COMPRESSION_TYPE: i16 = 76;
pub const MEMBER_ID_REQUIRED: i16 = 79;
pub const PRODUCER_FENCED: i16 = 90;
pub const UNKNOWN_TOPIC_ID: i16 = 100;
pub const FENCED_MEMBER_EPOCH: i16 = 110;

/// FindCoordinator batched its keys from this version on.
pub const FIND_COORDINATOR_BATCHED: i16 = 4;
/// OffsetFetch batched its groups from this version on.
pub const OFFSET_FETCH_BATCHED: i16 = 8;
/// From this version on the offset apis address topics by id.
pub const OFFSETS_BY_TOPIC_ID: i16 = 10;
/// ListOffsets: the log start.
pub const EARLIEST_TIMESTAMP: i64 = -2;
/// ListOffsets: the log end.
pub const LATEST_TIMESTAMP: i64 = -1;
/// What a partition a group never committed is reported as.
pub const UNSET_OFFSET: i64 = -1;
/// The fetch isolation level that filters uncommitted data.
pub const READ_COMMITTED: i8 = 1;
/// Every record in the log, decided or not.
pub const READ_UNCOMMITTED: i8 = 0;
/// The version from which a join with no member id must be refused.
pub const JOIN_GROUP_MEMBER_ID_REQUIRED: i16 = 4;

/// A topic id: sixteen bytes, all zero where there is none.
pub type TopicId = [u8; 16];

pub open spec fn zero_id() -> Seq<u8> {
    Seq::new(16, |i: int| 0u8)
}

/// Whether the id is the one that stands for "no id".
pub fn is_zero_id(id: &TopicId) -> (r: bool)
    ensures
        r == (id@ == zero_id()),
{
    let mut i: usize = 0;
    while i < 16
        invariant
            i <= 16,
            forall|j: int| 0 <= j < i ==> id@[j] == 0,
        decreases 16 - i,
    {
        if id[i] != 0 {
            assert(zero_id()[i as int] == 0u8);
            return false;
        }
        i = i + 1;
    }
    assert(id@ =~= zero_id());
    true
}

/// An error code as an answer carried it, and as it is written for a reader.
#[derive(Debug)]
pub struct ErrorCode {
    pub code: i16,
    pub shown: String,
}

impl ErrorCode {
    pub open spec fn ok(self) -> bool {
        self.code == NONE
    }

    /// Whether the code says that nothing went wrong.
    pub fn is_ok(&self) -> (r: bool)
        ensures
            r == self.ok(),
    {
        self.code == NONE
    }

    /// The same code again.
    pub fn copy(&self) -> (r: ErrorCode)
        ensures
            r == *self,
    {
        ErrorCode { code: self.code, shown: self.shown.clone() }
    }
}

/// The versions of one api, both ends included.
#[derive(Debug, Clone, Copy, PartialEq, Eq, Structural)]
pub struct Versions {
    pub min: i16,
    pub max: i16,
}

/// One api with the versions that are advertised for it.
#[derive(Debug, Clone, Copy, PartialEq, Eq, Structural)]
pub struct ApiVersion {
    pub api_key: i16,
    pub min_version: i16,
    pub max_version: i16,
}

/// The versions that the message codec can speak, api by api.
#[derive(Debug, Clone, Copy)]
pub struct Schema {
    pub produce: Versions,
    pub fetch: Versions,
    pub list_offsets: Versions,
    pub metadata: Versions,
    pub offset_commit: Versions,
    pub offset_fetch: Versions,
    pub find_coordinator: Versions,
    pub join_group: Versions,
    pub heartbeat: Versions,
    pub leave_group: Versions,
    pub sync_group: Versions,
    pub describe_groups: Versions,
    pub sasl_handshake: Versions,
    pub api_versions: Versions,
    pub create_topics: Versions,
    pub delete_topics: Versions,
    pub init_producer_id: Versions,
    pub add_partitions_to_txn: Versions,
    pub add_offsets_to_txn: Versions,
    pub end_txn: Versions,
    pub txn_offset_commit: Versions,
    pub sasl_authenticate: Versions,
    pub consumer_group_heartbeat: Versions,
}

/// A record header.
#[derive(Debug)]
pub struct RecordHeader {
    pub key: String,
    pub value: Option<Vec<u8>>,
}

/// One record of a batch.
#[derive(Debug)]
pub struct Record {
    pub timestamp_delta: i64,
    pub offset_delta: i32,
    pub key: Option<Vec<u8>>,
    pub value: Option<Vec<u8>>,
    pub headers: Vec<RecordHeader>,
}

/// What a batch carries: records, or a compressed payload of so many.
#[derive(Debug)]
pub enum Records {
    Plain(Vec<Record>),
    Compressed { count: i32, payload: Vec<u8> },
}

/// A record batch.
#[derive(Debug)]
pub struct RecordBatch {
    pub base_offset: i64,
    pub attributes: i16,
    pub last_offset_delta: i32,
    pub base_timestamp: i64,
    pub max_timestamp: i64,
    pub producer_id: i64,
    pub producer_epoch: i16,
    pub base_sequence: i32,
    pub records: Records,
}

/// Who is acting on which transaction.
#[derive(Debug)]
pub struct TxnActorOf<S> {
    pub transactional_id: S,
    pub producer_id: i64,
    pub producer_epoch: i16,
}

/// A topic as a request names it.
#[derive(Debug)]
pub enum TopicOf<S> {
    Name(S),
    Id(TopicId),
}

/// What is asked of the subject, over texts `S` and bytes `B`.
#[derive(Debug)]
pub enum RequestOf<S, B> {
    ApiVersions,
    /// Naming no topic, or one; never asking for it to be created.
    Metadata { topic: Option<S> },
    CreateTopics { topic: S, replication_factor: i16, validate_only: bool },
    DeleteTopics { topic: S, by_state: bool },
    Produce {
        topic: TopicOf<S>,
        partition: i32,
        acks: i16,
        transactional_id: Option<S>,
        records: B,
    },
    Fetch {
        topic: TopicOf<S>,
        partition: i32,
        offset: i64,
        max_wait_ms: i32,
        min_bytes: i32,
        max_bytes: i32,
        isolation_level: i8,
    },
    ListOffsets { topic: S, timestamp: i64 },
    FindCoordinator { key_type: i8, key: S, batched: bool },
    OffsetCommit { group: S, topic: TopicOf<S>, offset: i64, metadata: Option<S> },
    OffsetFetch { group: S, topic: TopicOf<S>, batched: bool },
    JoinGroup { group: S, member_id: S },
    SyncGroup { group: S, generation: i32, member_id: S, assignment: B },
    Heartbeat { group: S, generation: i32, member_id: S },
    LeaveGroup { group: S, member_id: S },
    DescribeGroups { group: S },
    /// A stated subscription comes with an empty list of owned partitions.
    ConsumerGroupHeartbeat { group: S, member_id: S, epoch: i32, subscribed: Option<S> },
    SaslHandshake { mechanism: S },
    SaslAuthenticate { token: B },
    InitProducerId { transactional_id: Option<S>, timeout_ms: i32 },
    AddPartitionsToTxn { actor: TxnActorOf<S>, topic: S, partition: i32 },
    AddOffsetsToTxn { actor: TxnActorOf<S>, group: S },
    EndTxn { actor: TxnActorOf<S>, committed: bool },
    TxnOffsetCommit { actor: TxnActorOf<S>, group: S, topic: S, offset: i64 },
}

pub type TxnActor = TxnActorOf<String>;

pub type Topic = TopicOf<String>;

pub type Request = RequestOf<String, Vec<u8>>;

pub open spec fn opt_view(o: Option<String>) -> Option<Seq<char>> {
    match o {
        Some(s) => Some(s@),
        None => None,
    }
}

impl View for TxnActorOf<String> {
    type V = TxnActorOf<Seq<char>>;

    open spec fn view(&self) -> TxnActorOf<Seq<char>> {
        TxnActorOf {
            transactional_id: self.transactional_id@,
            producer_id: self.producer_id,
            producer_epoch: self.producer_epoch,
        }
    }
}

impl View for TopicOf<String> {
    type V = TopicOf<Seq<char>>;

    open spec fn view(&self) -> TopicOf<Seq<char>> {
        match *self {
            TopicOf::Name(name) => TopicOf::Name(name@),
            TopicOf::Id(id) => TopicOf::Id(id),
        }
    }
}

impl View for RequestOf<String, Vec<u8>> {
    type V = RequestOf<Seq<char>, Seq<u8>>;

    open spec fn view(&self) -> RequestOf<Seq<char>, Seq<u8>> {
        match *self {
            RequestOf::ApiVersions => RequestOf::ApiVersions,
            RequestOf::Metadata { topic } => RequestOf::Metadata { topic: opt_view(topic) },
            RequestOf::CreateTopics { topic, replication_factor, validate_only } =>
                RequestOf::CreateTopics { topic: topic@, replication_factor, validate_only },
            RequestOf::DeleteTopics { topic, by_state } =>
                RequestOf::DeleteTopics { topic: topic@, by_state },
            RequestOf::Produce { topic, partition, acks, transactional_id, records } =>
                RequestOf::Produce {
                    topic: topic@,
                    partition,
                    acks,
                    transactional_id: opt_view(transactional_id),
                    records: records@,
                },
            RequestOf::Fetch {
                topic, partition, offset, max_wait_ms, min_bytes, max_bytes, isolation_level,
            } => RequestOf::Fetch {
                topic: topic@,
                partition,
                offset,
                max_wait_ms,
                min_bytes,
                max_bytes,
                isolation_level,
            },
            RequestOf::ListOffsets { topic, timestamp } =>
                RequestOf::ListOffsets { topic: topic@, timestamp },
            RequestOf::FindCoordinator { key_type, key, batched } =>
                RequestOf::FindCoordinator { key_type, key: key@, batched },
            RequestOf::OffsetCommit { group, topic, offset, metadata } =>
                RequestOf::OffsetCommit {
                    group: group@,
                    topic: topic@,
                    offset,
                    metadata: opt_view(metadata),
                },
            RequestOf::OffsetFetch { group, topic, batched } =>
                RequestOf::OffsetFetch { group: group@, topic: topic@, batched },
            RequestOf::JoinGroup { group, member_id } =>
                RequestOf::JoinGroup { group: group@, member_id: member_id@ },
            RequestOf::SyncGroup { group, generation, member_id, assignment } =>
                RequestOf::SyncGroup {
                    group: group@,
                    generation,
                    member_id: member_id@,
                    assignment: assignment@,
                },
            RequestOf::Heartbeat { group, generation, member_id } =>
                RequestOf::Heartbeat { group: group@, generation, member_id: member_id@ },
            RequestOf::LeaveGroup { group, member_id } =>
                RequestOf::LeaveGroup { group: group@, member_id: member_id@ },
            RequestOf::DescribeGroups { group } => RequestOf::DescribeGroups { group: group@ },
            RequestOf::ConsumerGroupHeartbeat { group, member_id, epoch, subscribed } =>
                RequestOf::ConsumerGroupHeartbeat {
                    group: group@,
                    member_id: member_id@,
                    epoch,
                    subscribed: opt_view(subscribed),
                },
            RequestOf::SaslHandshake { mechanism } =>
                RequestOf::SaslHandshake { mechanism: mechanism@ },
            RequestOf::SaslAuthenticate { token } => RequestOf::SaslAuthenticate { token: token@ },
            RequestOf::InitProducerId { transactional_id, timeout_ms } =>
                RequestOf::InitProducerId {
                    transactional_id: opt_view(transactional_id),
                    timeout_ms,
                },
            RequestOf::AddPartitionsToTxn { actor, topic, partition } =>
                RequestOf::AddPartitionsToTxn { actor: actor@, topic: topic@, partition },
            RequestOf::AddOffsetsToTxn { actor, group } =>
                RequestOf::AddOffsetsToTxn { actor: actor@, group: group@ },
            RequestOf::EndTxn { actor, committed } =>
                RequestOf::EndTxn { actor: actor@, committed },
            RequestOf::TxnOffsetCommit { actor, group, topic, offset } =>
                RequestOf::TxnOffsetCommit {
                    actor: actor@,
                    group: group@,
                    topic: topic@,
                    offset,
                },
        }
    }
}

/// The api key a request goes out under.
pub open spec fn spec_api_key<S, B>(request: RequestOf<S, B>) -> i16 {
    match request {
        RequestOf::ApiVersions => API_VERSIONS,
        RequestOf::Metadata { .. } => METADATA,
        RequestOf::CreateTopics { .. } => CREATE_TOPICS,
        RequestOf::DeleteTopics { .. } => DELETE_TOPICS,
        RequestOf::Produce { .. } => PRODUCE,
        RequestOf::Fetch { .. } => FETCH,
        RequestOf::ListOffsets { .. } => LIST_OFFSETS,
        RequestOf::FindCoordinator { .. } => FIND_COORDINATOR,
        RequestOf::OffsetCommit { .. } => OFFSET_COMMIT,
        RequestOf::OffsetFetch { .. } => OFFSET_FETCH,
        RequestOf::JoinGroup { .. } => JOIN_GROUP,
        RequestOf::SyncGroup { .. } => SYNC_GROUP,
        RequestOf::Heartbeat { .. } => HEARTBEAT,
        RequestOf::LeaveGroup { .. } => LEAVE_GROUP,
        RequestOf::DescribeGroups { .. } => DESCRIBE_GROUPS,
        RequestOf::ConsumerGroupHeartbeat { .. } => CONSUMER_GROUP_HEARTBEAT,
        RequestOf::SaslHandshake { .. } => SASL_HANDSHAKE,
        RequestOf::SaslAuthenticate { .. } => SASL_AUTHENTICATE,
        RequestOf::InitProducerId { .. } => INIT_PRODUCER_ID,
        RequestOf::AddPartitionsToTxn { .. } => ADD_PARTITIONS_TO_TXN,
        RequestOf::AddOffsetsToTxn { .. } => ADD_OFFSETS_TO_TXN,
        RequestOf::EndTxn { .. } => END_TXN,
        RequestOf::TxnOffsetCommit { .. } => TXN_OFFSET_COMMIT,
    }
}

impl<S, B> RequestOf<S, B> {
    /// The api key this request goes out under.
    pub fn api_key(&self) -> (r: i16)
        ensures
            r == spec_api_key(*self),
    {
        match self {
            RequestOf::ApiVersions => API_VERSIONS,
            RequestOf::Metadata { .. } => METADATA,
            RequestOf::CreateTopics { .. } => CREATE_TOPICS,
            RequestOf::DeleteTopics { .. } => DELETE_TOPICS,
            RequestOf::Produce { .. } => PRODUCE,
            RequestOf::Fetch { .. } => FETCH,
            RequestOf::ListOffsets { .. } => LIST_OFFSETS,
            RequestOf::FindCoordinator { .. } => FIND_COORDINATOR,
            RequestOf::OffsetCommit { .. } => OFFSET_COMMIT,
            RequestOf::OffsetFetch { .. } => OFFSET_FETCH,
            RequestOf::JoinGroup { .. } => JOIN_GROUP,
            RequestOf::SyncGroup { .. } => SYNC_GROUP,
            RequestOf::Heartbeat { .. } => HEARTBEAT,
            RequestOf::LeaveGroup { .. } => LEAVE_GROUP,
            RequestOf::DescribeGroups { .. } => DESCRIBE_GROUPS,
            RequestOf::ConsumerGroupHeartbeat { .. } => CONSUMER_GROUP_HEARTBEAT,
            RequestOf::SaslHandshake { .. } => SASL_HANDSHAKE,
            RequestOf::SaslAuthenticate { .. } => SASL_AUTHENTICATE,
            RequestOf::InitProducerId { .. } => INIT_PRODUCER_ID,
            RequestOf::AddPartitionsToTxn { .. } => ADD_PARTITIONS_TO_TXN,
            RequestOf::AddOffsetsToTxn { .. } => ADD_OFFSETS_TO_TXN,
            RequestOf::EndTxn { .. } => END_TXN,
            RequestOf::TxnOffsetCommit { .. } => TXN_OFFSET_COMMIT,
        }
    }
}

/// A broker as Metadata describes it.
#[derive(Debug)]
pub struct BrokerRow {
    pub node_id: i32,
    pub host: String,
    pub port: i32,
}

/// A partition as Metadata describes it.
#[derive(Debug)]
pub struct PartitionRow {
    pub index: i32,
    pub error: ErrorCode,
    pub leader_id: i32,
    pub replicas: Vec<i32>,
    pub isr: Vec<i32>,
}

/// A topic as Metadata describes it.
#[derive(Debug)]
pub struct TopicRow {
    pub name: Option<String>,
    pub error: ErrorCode,
    pub topic_id: TopicId,
    pub partitions: Vec<PartitionRow>,
}

#[derive(Debug)]
pub struct MetadataAnswer {
    pub brokers: Vec<BrokerRow>,
    pub controller_id: i32,
    pub topics: Vec<TopicRow>,
}

#[derive(Debug)]
pub struct ApiVersionsAnswer {
    pub error: ErrorCode,
    pub api_keys: Vec<ApiVersion>,
}

#[derive(Debug)]
pub struct CreatedRow {
    pub error: ErrorCode,
    pub error_message: Option<String>,
    pub topic_id: TopicId,
}

#[derive(Debug)]
pub struct ProducedRow {
    pub error: ErrorCode,
    pub base_offset: i64,
}

/// One partition of a Fetch answer.
#[derive(Debug)]
pub struct FetchedRow {
    pub error: ErrorCode,
    pub high_watermark: i64,
    pub last_stable_offset: i64,
    /// The producers whose transactions are named as aborted.
    pub aborted: Option<Vec<i64>>,
    pub records: Option<Vec<u8>>,
}

#[derive(Debug)]
pub struct FetchedTopic {
    pub topic_id: TopicId,
    pub partitions: Vec<FetchedRow>,
}

#[derive(Debug)]
pub struct FetchAnswer {
    pub error: ErrorCode,
    pub topics: Vec<FetchedTopic>,
}

#[derive(Debug)]
pub struct OffsetRow {
    pub error: ErrorCode,
    pub offset: i64,
}

#[derive(Debug)]
pub struct OffsetTopic {
    pub name: String,
    pub partitions: Vec<OffsetRow>,
}

#[derive(Debug)]
pub struct CoordinatorRow {
    pub error: ErrorCode,
    pub key: String,
    pub host: String,
    pub port: i32,
}

/// A FindCoordinator answer in both of its shapes.
#[derive(Debug)]
pub struct FindCoordinatorAnswer {
    pub error: ErrorCode,
    pub host: String,
    pub port: i32,
    pub coordinators: Vec<CoordinatorRow>,
}

#[derive(Debug)]
pub struct CommitTopic {
    pub name: String,
    pub topic_id: TopicId,
    pub partitions: Vec<ErrorCode>,
}

#[derive(Debug)]
pub struct CommittedRow {
    pub error: ErrorCode,
    pub offset: i64,
    pub metadata: Option<String>,
}

#[derive(Debug)]
pub struct CommittedTopic {
    pub name: String,
    pub topic_id: TopicId,
    pub partitions: Vec<CommittedRow>,
}

#[derive(Debug)]
pub struct CommittedGroup {
    pub group_id: String,
    pub error: ErrorCode,
    pub topics: Vec<CommittedTopic>,
}

/// An OffsetFetch answer in both of its shapes.
#[derive(Debug)]
pub struct OffsetFetchAnswer {
    pub topics: Vec<CommittedTopic>,
    pub groups: Vec<CommittedGroup>,
}

#[derive(Debug)]
pub struct JoinGroupAnswer {
    pub error: ErrorCode,
    pub generation_id: i32,
    pub leader: String,
    pub member_id: String,
}

#[derive(Debug)]
pub struct SyncGroupAnswer {
    pub error: ErrorCode,
    pub assignment: Vec<u8>,
}

#[derive(Debug)]
pub struct DescribedRow {
    pub group_id: String,
    pub error: ErrorCode,
    pub group_state: String,
    pub members: Vec<String>,
}

#[derive(Debug)]
pub struct AssignedTopic {
    pub topic_id: TopicId,
    pub partitions: Vec<i32>,
}

#[derive(Debug)]
pub struct ConsumerGroupAnswer {
    pub error: ErrorCode,
    pub member_id: Option<String>,
    pub member_epoch: i32,
    pub heartbeat_interval_ms: i32,
    pub assignment: Option<Vec<AssignedTopic>>,
}

#[derive(Debug)]
pub struct SaslHandshakeAnswer {
    pub error: ErrorCode,
    pub mechanisms: Vec<String>,
}

#[derive(Debug)]
pub struct SaslAuthenticateAnswer {
    pub error: ErrorCode,
    pub error_message: Option<String>,
    pub auth_bytes: Vec<u8>,
}

#[derive(Debug)]
pub struct InitProducerIdAnswer {
    pub error: ErrorCode,
    pub producer_id: i64,
    pub producer_epoch: i16,
}

/// What came back from the subject.
#[derive(Debug)]
pub enum Response {
    ApiVersions(ApiVersionsAnswer),
    Metadata(MetadataAnswer),
    CreateTopics(Vec<CreatedRow>),
    DeleteTopics(Vec<ErrorCode>),
    Produce(Vec<Vec<ProducedRow>>),
    Fetch(FetchAnswer),
    ListOffsets(Vec<OffsetTopic>),
    FindCoordinator(FindCoordinatorAnswer),
    OffsetCommit(Vec<CommitTopic>),
    OffsetFetch(OffsetFetchAnswer),
    JoinGroup(JoinGroupAnswer),
    SyncGroup(SyncGroupAnswer),
    DescribeGroups(Vec<DescribedRow>),
    ConsumerGroup(ConsumerGroupAnswer),
    SaslHandshake(SaslHandshakeAnswer),
    SaslAuthenticate(SaslAuthenticateAnswer),
    InitProducerId(InitProducerIdAnswer),
    /// Heartbeat, LeaveGroup, EndTxn and AddOffsetsToTxn: a code alone.
    Code(ErrorCode),
    /// AddPartitionsToTxn and TxnOffsetCommit: codes by topic and partition.
    Codes(Vec<Vec<ErrorCode>>),
}

} // verus!

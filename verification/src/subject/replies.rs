//! What the reference subject answers.
//!
//! Each answer is the message's fields as plain values; its view is the same
//! by characters and bytes.

use vstd::prelude::*;
use vstd::string::*;

use crate::text;
use crate::wire;
use crate::wire::{ApiVersion, TopicId};

verus! {

/// An ApiVersions answer.
#[derive(Debug)]
pub struct ApiVersionsReply {
    pub error_code: i16,
    pub api_keys: Vec<ApiVersion>,
}

#[verifier::ext_equal]
pub struct ApiVersionsReplyView {
    pub error_code: i16,
    pub api_keys: Seq<ApiVersion>,
}

impl View for ApiVersionsReply {
    type V = ApiVersionsReplyView;

    open spec fn view(&self) -> ApiVersionsReplyView {
        ApiVersionsReplyView {
            error_code: self.error_code,
            api_keys: self.api_keys@,
        }
    }
}

/// A broker that Metadata names.
#[derive(Debug)]
pub struct BrokerReply {
    pub node_id: i32,
    pub host: String,
    pub port: i32,
}

#[verifier::ext_equal]
pub struct BrokerReplyView {
    pub node_id: i32,
    pub host: Seq<char>,
    pub port: i32,
}

impl View for BrokerReply {
    type V = BrokerReplyView;

    open spec fn view(&self) -> BrokerReplyView {
        BrokerReplyView {
            node_id: self.node_id,
            host: self.host@,
            port: self.port,
        }
    }
}

/// A partition that Metadata names.
#[derive(Debug)]
pub struct PartitionReply {
    pub error_code: i16,
    pub partition_index: i32,
    pub leader_id: i32,
    pub leader_epoch: i32,
    pub replica_nodes: Vec<i32>,
    pub isr_nodes: Vec<i32>,
}

#[verifier::ext_equal]
pub struct PartitionReplyView {
    pub error_code: i16,
    pub partition_index: i32,
    pub leader_id: i32,
    pub leader_epoch: i32,
    pub replica_nodes: Seq<i32>,
    pub isr_nodes: Seq<i32>,
}

impl View for PartitionReply {
    type V = PartitionReplyView;

    open spec fn view(&self) -> PartitionReplyView {
        PartitionReplyView {
            error_code: self.error_code,
            partition_index: self.partition_index,
            leader_id: self.leader_id,
            leader_epoch: self.leader_epoch,
            replica_nodes: self.replica_nodes@,
            isr_nodes: self.isr_nodes@,
        }
    }
}

/// A topic that Metadata names.
#[derive(Debug)]
pub struct TopicReply {
    pub error_code: i16,
    pub name: Option<String>,
    pub topic_id: TopicId,
    pub partitions: Vec<PartitionReply>,
}

#[verifier::ext_equal]
pub struct TopicReplyView {
    pub error_code: i16,
    pub name: Option<Seq<char>>,
    pub topic_id: Seq<u8>,
    pub partitions: Seq<PartitionReplyView>,
}

impl View for TopicReply {
    type V = TopicReplyView;

    open spec fn view(&self) -> TopicReplyView {
        TopicReplyView {
            error_code: self.error_code,
            name: wire::opt_view(self.name),
            topic_id: self.topic_id@,
            partitions: self.partitions@.map_values(|row: PartitionReply| row@),
        }
    }
}

/// A Metadata answer.
#[derive(Debug)]
pub struct MetadataReply {
    pub brokers: Vec<BrokerReply>,
    pub cluster_id: Option<String>,
    pub controller_id: i32,
    pub topics: Vec<TopicReply>,
}

#[verifier::ext_equal]
pub struct MetadataReplyView {
    pub brokers: Seq<BrokerReplyView>,
    pub cluster_id: Option<Seq<char>>,
    pub controller_id: i32,
    pub topics: Seq<TopicReplyView>,
}

impl View for MetadataReply {
    type V = MetadataReplyView;

    open spec fn view(&self) -> MetadataReplyView {
        MetadataReplyView {
            brokers: self.brokers@.map_values(|row: BrokerReply| row@),
            cluster_id: wire::opt_view(self.cluster_id),
            controller_id: self.controller_id,
            topics: self.topics@.map_values(|row: TopicReply| row@),
        }
    }
}

/// What became of a topic to be created.
#[derive(Debug)]
pub struct CreatedTopic {
    pub name: String,
    pub topic_id: TopicId,
    pub error_code: i16,
    pub num_partitions: i32,
    pub replication_factor: i16,
}

#[verifier::ext_equal]
pub struct CreatedTopicView {
    pub name: Seq<char>,
    pub topic_id: Seq<u8>,
    pub error_code: i16,
    pub num_partitions: i32,
    pub replication_factor: i16,
}

impl View for CreatedTopic {
    type V = CreatedTopicView;

    open spec fn view(&self) -> CreatedTopicView {
        CreatedTopicView {
            name: self.name@,
            topic_id: self.topic_id@,
            error_code: self.error_code,
            num_partitions: self.num_partitions,
            replication_factor: self.replication_factor,
        }
    }
}

/// A CreateTopics answer.
#[derive(Debug)]
pub struct CreateTopicsReply {
    pub topics: Vec<CreatedTopic>,
}

#[verifier::ext_equal]
pub struct CreateTopicsReplyView {
    pub topics: Seq<CreatedTopicView>,
}

impl View for CreateTopicsReply {
    type V = CreateTopicsReplyView;

    open spec fn view(&self) -> CreateTopicsReplyView {
        CreateTopicsReplyView {
            topics: self.topics@.map_values(|row: CreatedTopic| row@),
        }
    }
}

/// What became of a topic to be deleted.
#[derive(Debug)]
pub struct DeletedTopic {
    pub name: Option<String>,
    pub error_code: i16,
}

#[verifier::ext_equal]
pub struct DeletedTopicView {
    pub name: Option<Seq<char>>,
    pub error_code: i16,
}

impl View for DeletedTopic {
    type V = DeletedTopicView;

    open spec fn view(&self) -> DeletedTopicView {
        DeletedTopicView {
            name: wire::opt_view(self.name),
            error_code: self.error_code,
        }
    }
}

/// A DeleteTopics answer.
#[derive(Debug)]
pub struct DeleteTopicsReply {
    pub responses: Vec<DeletedTopic>,
}

#[verifier::ext_equal]
pub struct DeleteTopicsReplyView {
    pub responses: Seq<DeletedTopicView>,
}

impl View for DeleteTopicsReply {
    type V = DeleteTopicsReplyView;

    open spec fn view(&self) -> DeleteTopicsReplyView {
        DeleteTopicsReplyView {
            responses: self.responses@.map_values(|row: DeletedTopic| row@),
        }
    }
}

/// What became of a write. Where the log start is missing, the message's
/// own default stands.
#[derive(Debug, Clone, Copy)]
pub struct ProducedPartition {
    pub index: i32,
    pub error_code: i16,
    pub base_offset: i64,
    pub log_append_time_ms: i64,
    pub log_start_offset: Option<i64>,
}

/// One topic of a Produce answer.
#[derive(Debug)]
pub struct ProducedTopic {
    pub name: String,
    pub topic_id: TopicId,
    pub partitions: Vec<ProducedPartition>,
}

#[verifier::ext_equal]
pub struct ProducedTopicView {
    pub name: Seq<char>,
    pub topic_id: Seq<u8>,
    pub partitions: Seq<ProducedPartition>,
}

impl View for ProducedTopic {
    type V = ProducedTopicView;

    open spec fn view(&self) -> ProducedTopicView {
        ProducedTopicView {
            name: self.name@,
            topic_id: self.topic_id@,
            partitions: self.partitions@,
        }
    }
}

/// A Produce answer.
#[derive(Debug)]
pub struct ProduceReply {
    pub responses: Vec<ProducedTopic>,
}

#[verifier::ext_equal]
pub struct ProduceReplyView {
    pub responses: Seq<ProducedTopicView>,
}

impl View for ProduceReply {
    type V = ProduceReplyView;

    open spec fn view(&self) -> ProduceReplyView {
        ProduceReplyView {
            responses: self.responses@.map_values(|row: ProducedTopic| row@),
        }
    }
}

/// What a Fetch answer says of a log that it found.
#[derive(Debug)]
pub struct FetchedLog {
    pub high_watermark: i64,
    pub last_stable_offset: i64,
    pub log_start_offset: i64,
    pub aborted_transactions: Option<Vec<(i64, i64)>>,
    pub records: Option<Vec<u8>>,
}

#[verifier::ext_equal]
pub struct FetchedLogView {
    pub high_watermark: i64,
    pub last_stable_offset: i64,
    pub log_start_offset: i64,
    pub aborted_transactions: Option<Seq<(i64, i64)>>,
    pub records: Option<Seq<u8>>,
}

impl View for FetchedLog {
    type V = FetchedLogView;

    open spec fn view(&self) -> FetchedLogView {
        FetchedLogView {
            high_watermark: self.high_watermark,
            last_stable_offset: self.last_stable_offset,
            log_start_offset: self.log_start_offset,
            aborted_transactions: match self.aborted_transactions {
                Some(rows) => Some(rows@),
                None => None,
            },
            records: match self.records {
                Some(rows) => Some(rows@),
                None => None,
            },
        }
    }
}

/// One partition of a Fetch answer. Where no log was found, the message's
/// own defaults stand.
#[derive(Debug)]
pub struct FetchedPartition {
    pub partition_index: i32,
    pub error_code: i16,
    pub log: Option<FetchedLog>,
}

#[verifier::ext_equal]
pub struct FetchedPartitionView {
    pub partition_index: i32,
    pub error_code: i16,
    pub log: Option<FetchedLogView>,
}

impl View for FetchedPartition {
    type V = FetchedPartitionView;

    open spec fn view(&self) -> FetchedPartitionView {
        FetchedPartitionView {
            partition_index: self.partition_index,
            error_code: self.error_code,
            log: match self.log {
                Some(row) => Some(row@),
                None => None,
            },
        }
    }
}

/// One topic of a Fetch answer.
#[derive(Debug)]
pub struct FetchedTopic {
    pub topic: String,
    pub topic_id: TopicId,
    pub partitions: Vec<FetchedPartition>,
}

#[verifier::ext_equal]
pub struct FetchedTopicView {
    pub topic: Seq<char>,
    pub topic_id: Seq<u8>,
    pub partitions: Seq<FetchedPartitionView>,
}

impl View for FetchedTopic {
    type V = FetchedTopicView;

    open spec fn view(&self) -> FetchedTopicView {
        FetchedTopicView {
            topic: self.topic@,
            topic_id: self.topic_id@,
            partitions: self.partitions@.map_values(|row: FetchedPartition| row@),
        }
    }
}

/// A Fetch answer.
#[derive(Debug)]
pub struct FetchReply {
    pub error_code: i16,
    pub session_id: i32,
    pub responses: Vec<FetchedTopic>,
}

#[verifier::ext_equal]
pub struct FetchReplyView {
    pub error_code: i16,
    pub session_id: i32,
    pub responses: Seq<FetchedTopicView>,
}

impl View for FetchReply {
    type V = FetchReplyView;

    open spec fn view(&self) -> FetchReplyView {
        FetchReplyView {
            error_code: self.error_code,
            session_id: self.session_id,
            responses: self.responses@.map_values(|row: FetchedTopic| row@),
        }
    }
}

/// One partition of a ListOffsets answer.
#[derive(Debug, Clone, Copy)]
pub struct ListedPartition {
    pub partition_index: i32,
    pub error_code: i16,
    pub timestamp: i64,
    pub offset: i64,
    pub leader_epoch: i32,
}

/// One topic of a ListOffsets answer.
#[derive(Debug)]
pub struct ListedTopic {
    pub name: String,
    pub partitions: Vec<ListedPartition>,
}

#[verifier::ext_equal]
pub struct ListedTopicView {
    pub name: Seq<char>,
    pub partitions: Seq<ListedPartition>,
}

impl View for ListedTopic {
    type V = ListedTopicView;

    open spec fn view(&self) -> ListedTopicView {
        ListedTopicView {
            name: self.name@,
            partitions: self.partitions@,
        }
    }
}

/// A ListOffsets answer.
#[derive(Debug)]
pub struct ListOffsetsReply {
    pub topics: Vec<ListedTopic>,
}

#[verifier::ext_equal]
pub struct ListOffsetsReplyView {
    pub topics: Seq<ListedTopicView>,
}

impl View for ListOffsetsReply {
    type V = ListOffsetsReplyView;

    open spec fn view(&self) -> ListOffsetsReplyView {
        ListOffsetsReplyView {
            topics: self.topics@.map_values(|row: ListedTopic| row@),
        }
    }
}

/// The coordinator of one key.
#[derive(Debug)]
pub struct CoordinatorReply {
    pub key: String,
    pub node_id: i32,
    pub host: String,
    pub port: i32,
    pub error_code: i16,
}

#[verifier::ext_equal]
pub struct CoordinatorReplyView {
    pub key: Seq<char>,
    pub node_id: i32,
    pub host: Seq<char>,
    pub port: i32,
    pub error_code: i16,
}

impl View for CoordinatorReply {
    type V = CoordinatorReplyView;

    open spec fn view(&self) -> CoordinatorReplyView {
        CoordinatorReplyView {
            key: self.key@,
            node_id: self.node_id,
            host: self.host@,
            port: self.port,
            error_code: self.error_code,
        }
    }
}

/// Where the one coordinator asked about is.
#[derive(Debug)]
pub struct EndpointReply {
    pub error_code: i16,
    pub node_id: i32,
    pub host: String,
    pub port: i32,
}

#[verifier::ext_equal]
pub struct EndpointReplyView {
    pub error_code: i16,
    pub node_id: i32,
    pub host: Seq<char>,
    pub port: i32,
}

impl View for EndpointReply {
    type V = EndpointReplyView;

    open spec fn view(&self) -> EndpointReplyView {
        EndpointReplyView {
            error_code: self.error_code,
            node_id: self.node_id,
            host: self.host@,
            port: self.port,
        }
    }
}

/// A FindCoordinator answer: one coordinator, or from version 4 on one for
/// each key.
#[derive(Debug)]
pub struct FindCoordinatorReply {
    pub one: Option<EndpointReply>,
    pub coordinators: Vec<CoordinatorReply>,
}

#[verifier::ext_equal]
pub struct FindCoordinatorReplyView {
    pub one: Option<EndpointReplyView>,
    pub coordinators: Seq<CoordinatorReplyView>,
}

impl View for FindCoordinatorReply {
    type V = FindCoordinatorReplyView;

    open spec fn view(&self) -> FindCoordinatorReplyView {
        FindCoordinatorReplyView {
            one: match self.one {
                Some(row) => Some(row@),
                None => None,
            },
            coordinators: self.coordinators@.map_values(|row: CoordinatorReply| row@),
        }
    }
}

/// A partition with the code it gets.
#[derive(Debug, Clone, Copy)]
pub struct CodedPartition {
    pub partition_index: i32,
    pub error_code: i16,
}

/// One topic of an OffsetCommit answer.
#[derive(Debug)]
pub struct CommittedTopic {
    pub name: String,
    pub topic_id: TopicId,
    pub partitions: Vec<CodedPartition>,
}

#[verifier::ext_equal]
pub struct CommittedTopicView {
    pub name: Seq<char>,
    pub topic_id: Seq<u8>,
    pub partitions: Seq<CodedPartition>,
}

impl View for CommittedTopic {
    type V = CommittedTopicView;

    open spec fn view(&self) -> CommittedTopicView {
        CommittedTopicView {
            name: self.name@,
            topic_id: self.topic_id@,
            partitions: self.partitions@,
        }
    }
}

/// An OffsetCommit answer.
#[derive(Debug)]
pub struct OffsetCommitReply {
    pub topics: Vec<CommittedTopic>,
}

#[verifier::ext_equal]
pub struct OffsetCommitReplyView {
    pub topics: Seq<CommittedTopicView>,
}

impl View for OffsetCommitReply {
    type V = OffsetCommitReplyView;

    open spec fn view(&self) -> OffsetCommitReplyView {
        OffsetCommitReplyView {
            topics: self.topics@.map_values(|row: CommittedTopic| row@),
        }
    }
}

/// A committed offset.
#[derive(Debug)]
pub struct OffsetRow {
    pub partition_index: i32,
    pub committed_offset: i64,
    pub metadata: Option<String>,
    pub committed_leader_epoch: i32,
    pub error_code: i16,
}

#[verifier::ext_equal]
pub struct OffsetRowView {
    pub partition_index: i32,
    pub committed_offset: i64,
    pub metadata: Option<Seq<char>>,
    pub committed_leader_epoch: i32,
    pub error_code: i16,
}

impl View for OffsetRow {
    type V = OffsetRowView;

    open spec fn view(&self) -> OffsetRowView {
        OffsetRowView {
            partition_index: self.partition_index,
            committed_offset: self.committed_offset,
            metadata: wire::opt_view(self.metadata),
            committed_leader_epoch: self.committed_leader_epoch,
            error_code: self.error_code,
        }
    }
}

/// One topic of an OffsetFetch answer.
#[derive(Debug)]
pub struct OffsetRows {
    pub name: String,
    pub topic_id: TopicId,
    pub partitions: Vec<OffsetRow>,
}

#[verifier::ext_equal]
pub struct OffsetRowsView {
    pub name: Seq<char>,
    pub topic_id: Seq<u8>,
    pub partitions: Seq<OffsetRowView>,
}

impl View for OffsetRows {
    type V = OffsetRowsView;

    open spec fn view(&self) -> OffsetRowsView {
        OffsetRowsView {
            name: self.name@,
            topic_id: self.topic_id@,
            partitions: self.partitions@.map_values(|row: OffsetRow| row@),
        }
    }
}

/// One group of an OffsetFetch answer.
#[derive(Debug)]
pub struct OffsetsOfGroup {
    pub group_id: String,
    pub error_code: i16,
    pub topics: Vec<OffsetRows>,
}

#[verifier::ext_equal]
pub struct OffsetsOfGroupView {
    pub group_id: Seq<char>,
    pub error_code: i16,
    pub topics: Seq<OffsetRowsView>,
}

impl View for OffsetsOfGroup {
    type V = OffsetsOfGroupView;

    open spec fn view(&self) -> OffsetsOfGroupView {
        OffsetsOfGroupView {
            group_id: self.group_id@,
            error_code: self.error_code,
            topics: self.topics@.map_values(|row: OffsetRows| row@),
        }
    }
}

/// An OffsetFetch answer in both of its shapes.
#[derive(Debug)]
pub struct OffsetFetchReply {
    pub topics: Vec<OffsetRows>,
    pub groups: Vec<OffsetsOfGroup>,
}

#[verifier::ext_equal]
pub struct OffsetFetchReplyView {
    pub topics: Seq<OffsetRowsView>,
    pub groups: Seq<OffsetsOfGroupView>,
}

impl View for OffsetFetchReply {
    type V = OffsetFetchReplyView;

    open spec fn view(&self) -> OffsetFetchReplyView {
        OffsetFetchReplyView {
            topics: self.topics@.map_values(|row: OffsetRows| row@),
            groups: self.groups@.map_values(|row: OffsetsOfGroup| row@),
        }
    }
}

/// A member as the leader is told of it.
#[derive(Debug)]
pub struct JoinMember {
    pub member_id: String,
    pub metadata: Vec<u8>,
}

#[verifier::ext_equal]
pub struct JoinMemberView {
    pub member_id: Seq<char>,
    pub metadata: Seq<u8>,
}

impl View for JoinMember {
    type V = JoinMemberView;

    open spec fn view(&self) -> JoinMemberView {
        JoinMemberView {
            member_id: self.member_id@,
            metadata: self.metadata@,
        }
    }
}

/// A JoinGroup answer.
#[derive(Debug)]
pub struct JoinGroupReply {
    pub error_code: i16,
    pub generation_id: i32,
    pub protocol_type: Option<String>,
    pub protocol_name: Option<String>,
    pub leader: String,
    pub member_id: String,
    pub members: Vec<JoinMember>,
}

#[verifier::ext_equal]
pub struct JoinGroupReplyView {
    pub error_code: i16,
    pub generation_id: i32,
    pub protocol_type: Option<Seq<char>>,
    pub protocol_name: Option<Seq<char>>,
    pub leader: Seq<char>,
    pub member_id: Seq<char>,
    pub members: Seq<JoinMemberView>,
}

impl View for JoinGroupReply {
    type V = JoinGroupReplyView;

    open spec fn view(&self) -> JoinGroupReplyView {
        JoinGroupReplyView {
            error_code: self.error_code,
            generation_id: self.generation_id,
            protocol_type: wire::opt_view(self.protocol_type),
            protocol_name: wire::opt_view(self.protocol_name),
            leader: self.leader@,
            member_id: self.member_id@,
            members: self.members@.map_values(|row: JoinMember| row@),
        }
    }
}

/// A SyncGroup answer.
#[derive(Debug)]
pub struct SyncGroupReply {
    pub error_code: i16,
    pub protocol_type: Option<String>,
    pub protocol_name: Option<String>,
    pub assignment: Vec<u8>,
}

#[verifier::ext_equal]
pub struct SyncGroupReplyView {
    pub error_code: i16,
    pub protocol_type: Option<Seq<char>>,
    pub protocol_name: Option<Seq<char>>,
    pub assignment: Seq<u8>,
}

impl View for SyncGroupReply {
    type V = SyncGroupReplyView;

    open spec fn view(&self) -> SyncGroupReplyView {
        SyncGroupReplyView {
            error_code: self.error_code,
            protocol_type: wire::opt_view(self.protocol_type),
            protocol_name: wire::opt_view(self.protocol_name),
            assignment: self.assignment@,
        }
    }
}

/// A member that DescribeGroups names.
#[derive(Debug)]
pub struct DescribedMember {
    pub member_id: String,
    pub client_id: String,
    pub client_host: String,
    pub member_assignment: Vec<u8>,
}

#[verifier::ext_equal]
pub struct DescribedMemberView {
    pub member_id: Seq<char>,
    pub client_id: Seq<char>,
    pub client_host: Seq<char>,
    pub member_assignment: Seq<u8>,
}

impl View for DescribedMember {
    type V = DescribedMemberView;

    open spec fn view(&self) -> DescribedMemberView {
        DescribedMemberView {
            member_id: self.member_id@,
            client_id: self.client_id@,
            client_host: self.client_host@,
            member_assignment: self.member_assignment@,
        }
    }
}

/// A group that DescribeGroups names.
#[derive(Debug)]
pub struct DescribedGroup {
    pub error_code: i16,
    pub group_id: String,
    pub group_state: String,
    pub protocol_type: String,
    pub protocol_data: String,
    pub members: Vec<DescribedMember>,
}

#[verifier::ext_equal]
pub struct DescribedGroupView {
    pub error_code: i16,
    pub group_id: Seq<char>,
    pub group_state: Seq<char>,
    pub protocol_type: Seq<char>,
    pub protocol_data: Seq<char>,
    pub members: Seq<DescribedMemberView>,
}

impl View for DescribedGroup {
    type V = DescribedGroupView;

    open spec fn view(&self) -> DescribedGroupView {
        DescribedGroupView {
            error_code: self.error_code,
            group_id: self.group_id@,
            group_state: self.group_state@,
            protocol_type: self.protocol_type@,
            protocol_data: self.protocol_data@,
            members: self.members@.map_values(|row: DescribedMember| row@),
        }
    }
}

/// A DescribeGroups answer.
#[derive(Debug)]
pub struct DescribeGroupsReply {
    pub groups: Vec<DescribedGroup>,
}

#[verifier::ext_equal]
pub struct DescribeGroupsReplyView {
    pub groups: Seq<DescribedGroupView>,
}

impl View for DescribeGroupsReply {
    type V = DescribeGroupsReplyView;

    open spec fn view(&self) -> DescribeGroupsReplyView {
        DescribeGroupsReplyView {
            groups: self.groups@.map_values(|row: DescribedGroup| row@),
        }
    }
}

/// A topic assigned to a member.
#[derive(Debug)]
pub struct AssignedTopic {
    pub topic_id: TopicId,
    pub partitions: Vec<i32>,
}

#[verifier::ext_equal]
pub struct AssignedTopicView {
    pub topic_id: Seq<u8>,
    pub partitions: Seq<i32>,
}

impl View for AssignedTopic {
    type V = AssignedTopicView;

    open spec fn view(&self) -> AssignedTopicView {
        AssignedTopicView {
            topic_id: self.topic_id@,
            partitions: self.partitions@,
        }
    }
}

/// A ConsumerGroupHeartbeat answer.
#[derive(Debug)]
pub struct ConsumerGroupReply {
    pub error_code: i16,
    pub member_id: Option<String>,
    pub member_epoch: i32,
    pub heartbeat_interval_ms: i32,
    pub assignment: Option<Vec<AssignedTopic>>,
}

#[verifier::ext_equal]
pub struct ConsumerGroupReplyView {
    pub error_code: i16,
    pub member_id: Option<Seq<char>>,
    pub member_epoch: i32,
    pub heartbeat_interval_ms: i32,
    pub assignment: Option<Seq<AssignedTopicView>>,
}

impl View for ConsumerGroupReply {
    type V = ConsumerGroupReplyView;

    open spec fn view(&self) -> ConsumerGroupReplyView {
        ConsumerGroupReplyView {
            error_code: self.error_code,
            member_id: wire::opt_view(self.member_id),
            member_epoch: self.member_epoch,
            heartbeat_interval_ms: self.heartbeat_interval_ms,
            assignment: match self.assignment {
                Some(rows) => Some(rows@.map_values(|row: AssignedTopic| row@)),
                None => None,
            },
        }
    }
}

/// A SaslHandshake answer.
#[derive(Debug)]
pub struct SaslHandshakeReply {
    pub error_code: i16,
    pub mechanisms: Vec<String>,
}

#[verifier::ext_equal]
pub struct SaslHandshakeReplyView {
    pub error_code: i16,
    pub mechanisms: Seq<Seq<char>>,
}

impl View for SaslHandshakeReply {
    type V = SaslHandshakeReplyView;

    open spec fn view(&self) -> SaslHandshakeReplyView {
        SaslHandshakeReplyView {
            error_code: self.error_code,
            mechanisms: text::views(self.mechanisms@),
        }
    }
}

/// A SaslAuthenticate answer.
#[derive(Debug)]
pub struct SaslAuthenticateReply {
    pub error_code: i16,
    pub error_message: Option<String>,
    pub auth_bytes: Vec<u8>,
}

#[verifier::ext_equal]
pub struct SaslAuthenticateReplyView {
    pub error_code: i16,
    pub error_message: Option<Seq<char>>,
    pub auth_bytes: Seq<u8>,
}

impl View for SaslAuthenticateReply {
    type V = SaslAuthenticateReplyView;

    open spec fn view(&self) -> SaslAuthenticateReplyView {
        SaslAuthenticateReplyView {
            error_code: self.error_code,
            error_message: wire::opt_view(self.error_message),
            auth_bytes: self.auth_bytes@,
        }
    }
}

/// An InitProducerId answer.
#[derive(Debug, Clone, Copy)]
pub struct InitProducerIdReply {
    pub error_code: i16,
    pub producer_id: i64,
    pub producer_epoch: i16,
}

/// The codes of one topic.
#[derive(Debug)]
pub struct TxnCodedTopic {
    pub name: String,
    pub partitions: Vec<CodedPartition>,
}

#[verifier::ext_equal]
pub struct TxnCodedTopicView {
    pub name: Seq<char>,
    pub partitions: Seq<CodedPartition>,
}

impl View for TxnCodedTopic {
    type V = TxnCodedTopicView;

    open spec fn view(&self) -> TxnCodedTopicView {
        TxnCodedTopicView {
            name: self.name@,
            partitions: self.partitions@,
        }
    }
}

/// An AddPartitionsToTxn or TxnOffsetCommit answer.
#[derive(Debug)]
pub struct TxnCodesReply {
    pub topics: Vec<TxnCodedTopic>,
}

#[verifier::ext_equal]
pub struct TxnCodesReplyView {
    pub topics: Seq<TxnCodedTopicView>,
}

impl View for TxnCodesReply {
    type V = TxnCodesReplyView;

    open spec fn view(&self) -> TxnCodesReplyView {
        TxnCodesReplyView {
            topics: self.topics@.map_values(|row: TxnCodedTopic| row@),
        }
    }
}

} // verus!

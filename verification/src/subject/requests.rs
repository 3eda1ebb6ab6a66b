//! What the reference subject reads of the requests it is sent.
//!
//! Each request is the message's fields as plain values; its view is the same
//! by characters and bytes.

use vstd::prelude::*;
use vstd::string::*;

use crate::text;
use crate::wire;
use crate::wire::{RecordBatch, TopicId};

verus! {

/// A topic by a name that may be missing.
#[derive(Debug)]
pub struct NamedTopic {
    pub name: Option<String>,
}

#[verifier::ext_equal]
pub struct NamedTopicView {
    pub name: Option<Seq<char>>,
}

impl View for NamedTopic {
    type V = NamedTopicView;

    open spec fn view(&self) -> NamedTopicView {
        NamedTopicView {
            name: wire::opt_view(self.name),
        }
    }
}

/// A Metadata request: the topics it names, or all of them.
#[derive(Debug)]
pub struct MetadataAsk {
    pub topics: Option<Vec<NamedTopic>>,
}

#[verifier::ext_equal]
pub struct MetadataAskView {
    pub topics: Option<Seq<NamedTopicView>>,
}

impl View for MetadataAsk {
    type V = MetadataAskView;

    open spec fn view(&self) -> MetadataAskView {
        MetadataAskView {
            topics: match self.topics {
                Some(rows) => Some(rows@.map_values(|row: NamedTopic| row@)),
                None => None,
            },
        }
    }
}

/// A topic to be created.
#[derive(Debug)]
pub struct NewTopic {
    pub name: String,
    pub num_partitions: i32,
    pub replication_factor: i16,
}

#[verifier::ext_equal]
pub struct NewTopicView {
    pub name: Seq<char>,
    pub num_partitions: i32,
    pub replication_factor: i16,
}

impl View for NewTopic {
    type V = NewTopicView;

    open spec fn view(&self) -> NewTopicView {
        NewTopicView {
            name: self.name@,
            num_partitions: self.num_partitions,
            replication_factor: self.replication_factor,
        }
    }
}

/// A CreateTopics request.
#[derive(Debug)]
pub struct CreateTopicsAsk {
    pub topics: Vec<NewTopic>,
    pub validate_only: bool,
}

#[verifier::ext_equal]
pub struct CreateTopicsAskView {
    pub topics: Seq<NewTopicView>,
    pub validate_only: bool,
}

impl View for CreateTopicsAsk {
    type V = CreateTopicsAskView;

    open spec fn view(&self) -> CreateTopicsAskView {
        CreateTopicsAskView {
            topics: self.topics@.map_values(|row: NewTopic| row@),
            validate_only: self.validate_only,
        }
    }
}

/// A DeleteTopics request: a list of topics, or below version 6 a list of
/// names.
#[derive(Debug)]
pub struct DeleteTopicsAsk {
    pub topics: Vec<NamedTopic>,
    pub topic_names: Vec<String>,
}

#[verifier::ext_equal]
pub struct DeleteTopicsAskView {
    pub topics: Seq<NamedTopicView>,
    pub topic_names: Seq<Seq<char>>,
}

impl View for DeleteTopicsAsk {
    type V = DeleteTopicsAskView;

    open spec fn view(&self) -> DeleteTopicsAskView {
        DeleteTopicsAskView {
            topics: self.topics@.map_values(|row: NamedTopic| row@),
            topic_names: text::views(self.topic_names@),
        }
    }
}

/// One partition of a Produce request. The codec reads the record set into
/// `batches`, which is missing where the set does not decode, and encodes the
/// first of them once more with its max timestamp as [`crate::subject::log::restamped`]
/// makes it into `rewritten`, which is missing where that does not encode.
#[derive(Debug)]
pub struct ProducePartition {
    pub index: i32,
    pub records: Option<Vec<u8>>,
    pub batches: Option<Vec<RecordBatch>>,
    pub rewritten: Option<Vec<u8>>,
}

#[verifier::ext_equal]
pub struct ProducePartitionView {
    pub index: i32,
    pub records: Option<Seq<u8>>,
    pub batches: Option<Seq<RecordBatch>>,
    pub rewritten: Option<Seq<u8>>,
}

impl View for ProducePartition {
    type V = ProducePartitionView;

    open spec fn view(&self) -> ProducePartitionView {
        ProducePartitionView {
            index: self.index,
            records: match self.records {
                Some(rows) => Some(rows@),
                None => None,
            },
            batches: match self.batches {
                Some(rows) => Some(rows@),
                None => None,
            },
            rewritten: match self.rewritten {
                Some(rows) => Some(rows@),
                None => None,
            },
        }
    }
}

/// One topic of a Produce request, by name or, with an empty name, by id.
#[derive(Debug)]
pub struct ProduceTopic {
    pub name: String,
    pub topic_id: TopicId,
    pub partitions: Vec<ProducePartition>,
}

#[verifier::ext_equal]
pub struct ProduceTopicView {
    pub name: Seq<char>,
    pub topic_id: Seq<u8>,
    pub partitions: Seq<ProducePartitionView>,
}

impl View for ProduceTopic {
    type V = ProduceTopicView;

    open spec fn view(&self) -> ProduceTopicView {
        ProduceTopicView {
            name: self.name@,
            topic_id: self.topic_id@,
            partitions: self.partitions@.map_values(|row: ProducePartition| row@),
        }
    }
}

/// A Produce request.
#[derive(Debug)]
pub struct ProduceAsk {
    pub transactional_id: Option<String>,
    pub acks: i16,
    pub topics: Vec<ProduceTopic>,
}

#[verifier::ext_equal]
pub struct ProduceAskView {
    pub transactional_id: Option<Seq<char>>,
    pub acks: i16,
    pub topics: Seq<ProduceTopicView>,
}

impl View for ProduceAsk {
    type V = ProduceAskView;

    open spec fn view(&self) -> ProduceAskView {
        ProduceAskView {
            transactional_id: wire::opt_view(self.transactional_id),
            acks: self.acks,
            topics: self.topics@.map_values(|row: ProduceTopic| row@),
        }
    }
}

/// One partition of a Fetch request.
#[derive(Debug, Clone, Copy)]
pub struct FetchPartition {
    pub partition: i32,
    pub fetch_offset: i64,
}

/// One topic of a Fetch request, by name or, with an empty name, by id.
#[derive(Debug)]
pub struct FetchTopic {
    pub topic: String,
    pub topic_id: TopicId,
    pub partitions: Vec<FetchPartition>,
}

#[verifier::ext_equal]
pub struct FetchTopicView {
    pub topic: Seq<char>,
    pub topic_id: Seq<u8>,
    pub partitions: Seq<FetchPartition>,
}

impl View for FetchTopic {
    type V = FetchTopicView;

    open spec fn view(&self) -> FetchTopicView {
        FetchTopicView {
            topic: self.topic@,
            topic_id: self.topic_id@,
            partitions: self.partitions@,
        }
    }
}

/// A Fetch request.
#[derive(Debug)]
pub struct FetchAsk {
    pub max_wait_ms: i32,
    pub min_bytes: i32,
    pub isolation_level: i8,
    pub topics: Vec<FetchTopic>,
}

#[verifier::ext_equal]
pub struct FetchAskView {
    pub max_wait_ms: i32,
    pub min_bytes: i32,
    pub isolation_level: i8,
    pub topics: Seq<FetchTopicView>,
}

impl View for FetchAsk {
    type V = FetchAskView;

    open spec fn view(&self) -> FetchAskView {
        FetchAskView {
            max_wait_ms: self.max_wait_ms,
            min_bytes: self.min_bytes,
            isolation_level: self.isolation_level,
            topics: self.topics@.map_values(|row: FetchTopic| row@),
        }
    }
}

/// One partition of a ListOffsets request. The codec reads what the
/// partition's log holds into `stored`, which is missing where it does not
/// decode.
#[derive(Debug)]
pub struct ListPartition {
    pub partition_index: i32,
    pub timestamp: i64,
    pub stored: Option<Vec<RecordBatch>>,
}

#[verifier::ext_equal]
pub struct ListPartitionView {
    pub partition_index: i32,
    pub timestamp: i64,
    pub stored: Option<Seq<RecordBatch>>,
}

impl View for ListPartition {
    type V = ListPartitionView;

    open spec fn view(&self) -> ListPartitionView {
        ListPartitionView {
            partition_index: self.partition_index,
            timestamp: self.timestamp,
            stored: match self.stored {
                Some(rows) => Some(rows@),
                None => None,
            },
        }
    }
}

/// One topic of a ListOffsets request.
#[derive(Debug)]
pub struct ListTopic {
    pub name: String,
    pub partitions: Vec<ListPartition>,
}

#[verifier::ext_equal]
pub struct ListTopicView {
    pub name: Seq<char>,
    pub partitions: Seq<ListPartitionView>,
}

impl View for ListTopic {
    type V = ListTopicView;

    open spec fn view(&self) -> ListTopicView {
        ListTopicView {
            name: self.name@,
            partitions: self.partitions@.map_values(|row: ListPartition| row@),
        }
    }
}

/// A ListOffsets request.
#[derive(Debug)]
pub struct ListOffsetsAsk {
    pub topics: Vec<ListTopic>,
}

#[verifier::ext_equal]
pub struct ListOffsetsAskView {
    pub topics: Seq<ListTopicView>,
}

impl View for ListOffsetsAsk {
    type V = ListOffsetsAskView;

    open spec fn view(&self) -> ListOffsetsAskView {
        ListOffsetsAskView {
            topics: self.topics@.map_values(|row: ListTopic| row@),
        }
    }
}

/// A FindCoordinator request in both of its shapes.
#[derive(Debug)]
pub struct FindCoordinatorAsk {
    pub key: String,
    pub coordinator_keys: Vec<String>,
}

#[verifier::ext_equal]
pub struct FindCoordinatorAskView {
    pub key: Seq<char>,
    pub coordinator_keys: Seq<Seq<char>>,
}

impl View for FindCoordinatorAsk {
    type V = FindCoordinatorAskView;

    open spec fn view(&self) -> FindCoordinatorAskView {
        FindCoordinatorAskView {
            key: self.key@,
            coordinator_keys: text::views(self.coordinator_keys@),
        }
    }
}

/// An offset to be committed.
#[derive(Debug)]
pub struct CommitPartition {
    pub partition_index: i32,
    pub committed_offset: i64,
    pub committed_metadata: Option<String>,
}

#[verifier::ext_equal]
pub struct CommitPartitionView {
    pub partition_index: i32,
    pub committed_offset: i64,
    pub committed_metadata: Option<Seq<char>>,
}

impl View for CommitPartition {
    type V = CommitPartitionView;

    open spec fn view(&self) -> CommitPartitionView {
        CommitPartitionView {
            partition_index: self.partition_index,
            committed_offset: self.committed_offset,
            committed_metadata: wire::opt_view(self.committed_metadata),
        }
    }
}

/// One topic of an OffsetCommit request, by name or, with an empty name, by
/// id.
#[derive(Debug)]
pub struct CommitTopic {
    pub name: String,
    pub topic_id: TopicId,
    pub partitions: Vec<CommitPartition>,
}

#[verifier::ext_equal]
pub struct CommitTopicView {
    pub name: Seq<char>,
    pub topic_id: Seq<u8>,
    pub partitions: Seq<CommitPartitionView>,
}

impl View for CommitTopic {
    type V = CommitTopicView;

    open spec fn view(&self) -> CommitTopicView {
        CommitTopicView {
            name: self.name@,
            topic_id: self.topic_id@,
            partitions: self.partitions@.map_values(|row: CommitPartition| row@),
        }
    }
}

/// An OffsetCommit request.
#[derive(Debug)]
pub struct OffsetCommitAsk {
    pub group_id: String,
    pub topics: Vec<CommitTopic>,
}

#[verifier::ext_equal]
pub struct OffsetCommitAskView {
    pub group_id: Seq<char>,
    pub topics: Seq<CommitTopicView>,
}

impl View for OffsetCommitAsk {
    type V = OffsetCommitAskView;

    open spec fn view(&self) -> OffsetCommitAskView {
        OffsetCommitAskView {
            group_id: self.group_id@,
            topics: self.topics@.map_values(|row: CommitTopic| row@),
        }
    }
}

/// One topic of an OffsetFetch request, by name or, with an empty name, by
/// id.
#[derive(Debug)]
pub struct OffsetTopic {
    pub name: String,
    pub topic_id: TopicId,
    pub partition_indexes: Vec<i32>,
}

#[verifier::ext_equal]
pub struct OffsetTopicView {
    pub name: Seq<char>,
    pub topic_id: Seq<u8>,
    pub partition_indexes: Seq<i32>,
}

impl View for OffsetTopic {
    type V = OffsetTopicView;

    open spec fn view(&self) -> OffsetTopicView {
        OffsetTopicView {
            name: self.name@,
            topic_id: self.topic_id@,
            partition_indexes: self.partition_indexes@,
        }
    }
}

/// One group of an OffsetFetch request.
#[derive(Debug)]
pub struct OffsetGroup {
    pub group_id: String,
    pub topics: Option<Vec<OffsetTopic>>,
}

#[verifier::ext_equal]
pub struct OffsetGroupView {
    pub group_id: Seq<char>,
    pub topics: Option<Seq<OffsetTopicView>>,
}

impl View for OffsetGroup {
    type V = OffsetGroupView;

    open spec fn view(&self) -> OffsetGroupView {
        OffsetGroupView {
            group_id: self.group_id@,
            topics: match self.topics {
                Some(rows) => Some(rows@.map_values(|row: OffsetTopic| row@)),
                None => None,
            },
        }
    }
}

/// An OffsetFetch request in both of its shapes.
#[derive(Debug)]
pub struct OffsetFetchAsk {
    pub group_id: String,
    pub topics: Option<Vec<OffsetTopic>>,
    pub groups: Vec<OffsetGroup>,
}

#[verifier::ext_equal]
pub struct OffsetFetchAskView {
    pub group_id: Seq<char>,
    pub topics: Option<Seq<OffsetTopicView>>,
    pub groups: Seq<OffsetGroupView>,
}

impl View for OffsetFetchAsk {
    type V = OffsetFetchAskView;

    open spec fn view(&self) -> OffsetFetchAskView {
        OffsetFetchAskView {
            group_id: self.group_id@,
            topics: match self.topics {
                Some(rows) => Some(rows@.map_values(|row: OffsetTopic| row@)),
                None => None,
            },
            groups: self.groups@.map_values(|row: OffsetGroup| row@),
        }
    }
}

/// A protocol that a joining member can speak.
#[derive(Debug)]
pub struct Protocol {
    pub name: String,
    pub metadata: Vec<u8>,
}

#[verifier::ext_equal]
pub struct ProtocolView {
    pub name: Seq<char>,
    pub metadata: Seq<u8>,
}

impl View for Protocol {
    type V = ProtocolView;

    open spec fn view(&self) -> ProtocolView {
        ProtocolView {
            name: self.name@,
            metadata: self.metadata@,
        }
    }
}

/// A JoinGroup request.
#[derive(Debug)]
pub struct JoinGroupAsk {
    pub group_id: String,
    pub member_id: String,
    pub protocol_type: String,
    pub protocols: Vec<Protocol>,
}

#[verifier::ext_equal]
pub struct JoinGroupAskView {
    pub group_id: Seq<char>,
    pub member_id: Seq<char>,
    pub protocol_type: Seq<char>,
    pub protocols: Seq<ProtocolView>,
}

impl View for JoinGroupAsk {
    type V = JoinGroupAskView;

    open spec fn view(&self) -> JoinGroupAskView {
        JoinGroupAskView {
            group_id: self.group_id@,
            member_id: self.member_id@,
            protocol_type: self.protocol_type@,
            protocols: self.protocols@.map_values(|row: Protocol| row@),
        }
    }
}

/// What the group's leader gives a member.
#[derive(Debug)]
pub struct GivenAssignment {
    pub member_id: String,
    pub assignment: Vec<u8>,
}

#[verifier::ext_equal]
pub struct GivenAssignmentView {
    pub member_id: Seq<char>,
    pub assignment: Seq<u8>,
}

impl View for GivenAssignment {
    type V = GivenAssignmentView;

    open spec fn view(&self) -> GivenAssignmentView {
        GivenAssignmentView {
            member_id: self.member_id@,
            assignment: self.assignment@,
        }
    }
}

/// A SyncGroup request.
#[derive(Debug)]
pub struct SyncGroupAsk {
    pub group_id: String,
    pub generation_id: i32,
    pub member_id: String,
    pub assignments: Vec<GivenAssignment>,
}

#[verifier::ext_equal]
pub struct SyncGroupAskView {
    pub group_id: Seq<char>,
    pub generation_id: i32,
    pub member_id: Seq<char>,
    pub assignments: Seq<GivenAssignmentView>,
}

impl View for SyncGroupAsk {
    type V = SyncGroupAskView;

    open spec fn view(&self) -> SyncGroupAskView {
        SyncGroupAskView {
            group_id: self.group_id@,
            generation_id: self.generation_id,
            member_id: self.member_id@,
            assignments: self.assignments@.map_values(|row: GivenAssignment| row@),
        }
    }
}

/// A Heartbeat request.
#[derive(Debug)]
pub struct HeartbeatAsk {
    pub group_id: String,
    pub generation_id: i32,
    pub member_id: String,
}

#[verifier::ext_equal]
pub struct HeartbeatAskView {
    pub group_id: Seq<char>,
    pub generation_id: i32,
    pub member_id: Seq<char>,
}

impl View for HeartbeatAsk {
    type V = HeartbeatAskView;

    open spec fn view(&self) -> HeartbeatAskView {
        HeartbeatAskView {
            group_id: self.group_id@,
            generation_id: self.generation_id,
            member_id: self.member_id@,
        }
    }
}

/// A LeaveGroup request: from version 3 on a list of members, below it one.
#[derive(Debug)]
pub struct LeaveGroupAsk {
    pub group_id: String,
    pub member_id: String,
    pub members: Vec<String>,
}

#[verifier::ext_equal]
pub struct LeaveGroupAskView {
    pub group_id: Seq<char>,
    pub member_id: Seq<char>,
    pub members: Seq<Seq<char>>,
}

impl View for LeaveGroupAsk {
    type V = LeaveGroupAskView;

    open spec fn view(&self) -> LeaveGroupAskView {
        LeaveGroupAskView {
            group_id: self.group_id@,
            member_id: self.member_id@,
            members: text::views(self.members@),
        }
    }
}

/// A DescribeGroups request.
#[derive(Debug)]
pub struct DescribeGroupsAsk {
    pub groups: Vec<String>,
}

#[verifier::ext_equal]
pub struct DescribeGroupsAskView {
    pub groups: Seq<Seq<char>>,
}

impl View for DescribeGroupsAsk {
    type V = DescribeGroupsAskView;

    open spec fn view(&self) -> DescribeGroupsAskView {
        DescribeGroupsAskView {
            groups: text::views(self.groups@),
        }
    }
}

/// A ConsumerGroupHeartbeat request. A missing subscription says nothing of
/// it.
#[derive(Debug)]
pub struct ConsumerGroupAsk {
    pub group_id: String,
    pub member_id: String,
    pub member_epoch: i32,
    pub subscribed: Option<Vec<String>>,
}

#[verifier::ext_equal]
pub struct ConsumerGroupAskView {
    pub group_id: Seq<char>,
    pub member_id: Seq<char>,
    pub member_epoch: i32,
    pub subscribed: Option<Seq<Seq<char>>>,
}

impl View for ConsumerGroupAsk {
    type V = ConsumerGroupAskView;

    open spec fn view(&self) -> ConsumerGroupAskView {
        ConsumerGroupAskView {
            group_id: self.group_id@,
            member_id: self.member_id@,
            member_epoch: self.member_epoch,
            subscribed: match self.subscribed {
                Some(names) => Some(text::views(names@)),
                None => None,
            },
        }
    }
}

/// An InitProducerId request.
#[derive(Debug)]
pub struct InitProducerIdAsk {
    pub transactional_id: Option<String>,
}

#[verifier::ext_equal]
pub struct InitProducerIdAskView {
    pub transactional_id: Option<Seq<char>>,
}

impl View for InitProducerIdAsk {
    type V = InitProducerIdAskView;

    open spec fn view(&self) -> InitProducerIdAskView {
        InitProducerIdAskView {
            transactional_id: wire::opt_view(self.transactional_id),
        }
    }
}

/// A topic whose partitions join a transaction.
#[derive(Debug)]
pub struct TxnTopic {
    pub name: String,
    pub partitions: Vec<i32>,
}

#[verifier::ext_equal]
pub struct TxnTopicView {
    pub name: Seq<char>,
    pub partitions: Seq<i32>,
}

impl View for TxnTopic {
    type V = TxnTopicView;

    open spec fn view(&self) -> TxnTopicView {
        TxnTopicView {
            name: self.name@,
            partitions: self.partitions@,
        }
    }
}

/// An AddPartitionsToTxn request.
#[derive(Debug)]
pub struct AddPartitionsAsk {
    pub transactional_id: String,
    pub producer_epoch: i16,
    pub topics: Vec<TxnTopic>,
}

#[verifier::ext_equal]
pub struct AddPartitionsAskView {
    pub transactional_id: Seq<char>,
    pub producer_epoch: i16,
    pub topics: Seq<TxnTopicView>,
}

impl View for AddPartitionsAsk {
    type V = AddPartitionsAskView;

    open spec fn view(&self) -> AddPartitionsAskView {
        AddPartitionsAskView {
            transactional_id: self.transactional_id@,
            producer_epoch: self.producer_epoch,
            topics: self.topics@.map_values(|row: TxnTopic| row@),
        }
    }
}

/// An EndTxn request.
#[derive(Debug)]
pub struct EndTxnAsk {
    pub transactional_id: String,
    pub producer_epoch: i16,
    pub committed: bool,
}

#[verifier::ext_equal]
pub struct EndTxnAskView {
    pub transactional_id: Seq<char>,
    pub producer_epoch: i16,
    pub committed: bool,
}

impl View for EndTxnAsk {
    type V = EndTxnAskView;

    open spec fn view(&self) -> EndTxnAskView {
        EndTxnAskView {
            transactional_id: self.transactional_id@,
            producer_epoch: self.producer_epoch,
            committed: self.committed,
        }
    }
}

/// An AddOffsetsToTxn request.
#[derive(Debug)]
pub struct AddOffsetsAsk {
    pub transactional_id: String,
    pub producer_epoch: i16,
}

#[verifier::ext_equal]
pub struct AddOffsetsAskView {
    pub transactional_id: Seq<char>,
    pub producer_epoch: i16,
}

impl View for AddOffsetsAsk {
    type V = AddOffsetsAskView;

    open spec fn view(&self) -> AddOffsetsAskView {
        AddOffsetsAskView {
            transactional_id: self.transactional_id@,
            producer_epoch: self.producer_epoch,
        }
    }
}

/// A topic whose offsets a transaction holds.
#[derive(Debug)]
pub struct TxnOffsetTopic {
    pub name: String,
    pub partitions: Vec<CommitPartition>,
}

#[verifier::ext_equal]
pub struct TxnOffsetTopicView {
    pub name: Seq<char>,
    pub partitions: Seq<CommitPartitionView>,
}

impl View for TxnOffsetTopic {
    type V = TxnOffsetTopicView;

    open spec fn view(&self) -> TxnOffsetTopicView {
        TxnOffsetTopicView {
            name: self.name@,
            partitions: self.partitions@.map_values(|row: CommitPartition| row@),
        }
    }
}

/// A TxnOffsetCommit request.
#[derive(Debug)]
pub struct TxnOffsetsAsk {
    pub transactional_id: String,
    pub group_id: String,
    pub producer_epoch: i16,
    pub topics: Vec<TxnOffsetTopic>,
}

#[verifier::ext_equal]
pub struct TxnOffsetsAskView {
    pub transactional_id: Seq<char>,
    pub group_id: Seq<char>,
    pub producer_epoch: i16,
    pub topics: Seq<TxnOffsetTopicView>,
}

impl View for TxnOffsetsAsk {
    type V = TxnOffsetsAskView;

    open spec fn view(&self) -> TxnOffsetsAskView {
        TxnOffsetsAskView {
            transactional_id: self.transactional_id@,
            group_id: self.group_id@,
            producer_epoch: self.producer_epoch,
            topics: self.topics@.map_values(|row: TxnOffsetTopic| row@),
        }
    }
}

} // verus!

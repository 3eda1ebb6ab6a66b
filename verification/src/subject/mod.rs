//! A reference subject with fault injection.
//!
//! With no faults it answers as a small conformant cluster; each [`Fault`]
//! makes it commit one violation. The modules below hold what it answers to
//! each request and what that does to its state.

use vstd::prelude::*;

pub mod groups;
pub mod laws;
pub mod laws_reads;
pub mod log;
pub mod offsets;
pub mod replies;
pub mod requests;
pub mod sasl;
pub mod serve;
pub mod state;
pub mod topics;
pub mod txn;

verus! {

/// A single deliberate protocol violation.
#[derive(Debug, Clone, Copy, PartialEq, Eq, Structural)]
pub enum Fault {
    /// Echo the correlation id after the request's.
    WrongCorrelationEcho,
    /// Advertise an api whose range ends before it begins.
    InvertedVersionRange,
    /// Leave ApiVersions out of what is advertised.
    OmitApiVersionsKey,
    /// Answer an unsupported ApiVersions version with NONE.
    WrongErrorOnUnsupportedVersion,
    /// Encode that error's body flexibly, not at version 0.
    ErrorBodyNotV0,
    /// Advertise another ApiVersions maximum in that error than otherwise.
    AdvertiseWrongMaxInError,
    /// Put junk after the body of an ApiVersions answer, inside its frame.
    TrailingGarbage,
    /// Put junk after the body of a Fetch answer, inside its frame.
    FetchTrailingGarbage,
    /// Give a flexible ApiVersions answer a header with tagged fields.
    FlexibleHeaderOnV3,
    /// Name no brokers in Metadata.
    MetadataEmptyBrokers,
    /// Name a topic in Metadata though none was asked for.
    MetadataUnrequestedTopic,
    /// Give a flexible Metadata answer a header without tagged fields.
    MetadataNonFlexibleHeader,
    /// Answer a produce with an offset one past the one assigned.
    ProduceWrongBaseOffset,
    /// Change a byte of the stored batches when they are fetched.
    FetchCorruptBatch,
    /// Refuse a topic id in a produce though CreateTopics minted it.
    ProduceTopicIdUnknown,
    /// Echo another topic id than the fetch named.
    FetchWrongTopicId,
    /// Answer a produce that asked for no answer.
    ProduceAnswersAcksZero,
    /// Report another topic id each time for a topic that stays.
    MetadataRemintsTopicId,
    /// Take a transactional write whose epoch has been superseded.
    ProduceAcceptsFencedEpoch,
    /// Report a committed transaction as aborted.
    TxnCommitMarksAborted,
    /// Publish an offset of an open transaction at once.
    TxnOffsetsPublishImmediately,
    /// Stamp a gzip batch anew before it is stored.
    ProduceRewritesGzipBatches,
    /// The same, for snappy.
    ProduceRewritesSnappyBatches,
    /// The same, for lz4.
    ProduceRewritesLz4Batches,
    /// The same, for zstd.
    ProduceRewritesZstdBatches,
    /// Answer a fetch that finds nothing without waiting.
    FetchIgnoresMaxWait,
    /// Name a partition leader that is no broker of the same answer.
    MetadataLeaderIsUnknown,
    /// Describe a live group without its members.
    DescribeGroupsHidesMembers,
    /// Store a commit without its metadata.
    OffsetCommitDropsMetadata,
    /// Acknowledge a LeaveGroup and keep the member.
    LeaveGroupKeepsTheMember,
    /// Create a topic with more replicas than there are brokers.
    CreateTopicsIgnoresReplicationFactor,
    /// Answer a timestamp lookup with the log end.
    ListOffsetsTimestampReturnsLogEnd,
    /// Report a topic deleted and keep it.
    DeleteTopicsKeepsTheTopic,
    /// Append a batch that a producer has already had stored.
    ProduceAppendsIdempotentRetries,
    /// Take a stamped batch that skips ahead.
    ProduceAcceptsSequenceGaps,
    /// Hand out the predecessor's epoch for a transactional id.
    TxnInitReusesEpoch,
    /// Honour a transaction request with a superseded epoch.
    TxnIgnoresProducerEpoch,
    /// Leave an unannounced write out of its transaction.
    TxnUnannouncedWriteEscapes,
    /// Report the log end as stable with a transaction open.
    TxnStableOffsetIgnoresOpenTxn,
    /// Keep an aborted transaction off the list readers are given.
    TxnAbortListOmitted,
    /// Report a log start that is not 0.
    ListOffsetsWrongEarliest,
    /// Echo a coordinator key that was not asked about.
    FindCoordinatorWrongKey,
    /// Report a committed offset as never committed.
    OffsetFetchLosesCommit,
    /// Report an offset never committed as 0.
    OffsetFetchUnsetIsZero,
    /// Change a byte of the stored batches at the lowest fetch version only.
    FetchCorruptOnOldVersions,
    /// Answer a fetch past the log end without an error.
    FetchPastEndSucceeds,
    /// Leave an unknown topic out of Metadata where it was due an error.
    MetadataUnknownTopicOmitted,
    /// Answer a second creation of a topic with NONE.
    CreateTopicsDuplicateSucceeds,
    /// Create a topic that was only to be validated.
    CreateTopicsValidateOnlyCreates,
    /// Admit a join without a member id.
    JoinGroupAcceptsEmptyMemberId,
    /// Alter the assignment bytes that the leader gave.
    SyncGroupRewritesAssignment,
    /// Accept any generation after the join.
    GroupIgnoresGeneration,
    /// Never admit a consumer group member past epoch 0.
    ConsumerGroupEpochStuck,
    /// Read a missing subscription as an empty one.
    ConsumerGroupNullSubscriptionRevokes,
    /// Assign nothing, however a member subscribed.
    ConsumerGroupAssignsNothing,
    /// Accept any member epoch.
    ConsumerGroupIgnoresEpoch,
    /// Refuse a mechanism without naming those on offer.
    SaslHandshakeHidesMechanisms,
    /// Accept a token before a mechanism was agreed.
    SaslAuthenticateWithoutHandshake,
    /// Replace the client's nonce where it should be extended.
    ScramNonceReplacesClients,
    /// Name an iteration count far below the floor.
    ScramWeakIterations,
    /// Complete an exchange without the server's signature.
    ScramSkipsServerSignature,
    /// Have every broker name itself as the leader.
    BrokersDisagreeOnLeader,
    /// Report a replicated partition as living on one broker.
    ReplicasCollapseToTheLeader,
    /// Have every broker name itself as the coordinator.
    CoordinatorIsWhoeverAsked,
    /// Take a write on a broker that does not lead the partition.
    AnyBrokerAcceptsWrites,
    /// Store a group's offsets on whichever broker was asked.
    AnyBrokerServesGroups,
    /// Keep naming a stopped broker as the leader.
    LeadershipStaysWithTheStoppedBroker,
    /// Lose a group's offsets with the broker that coordinated it.
    OffsetsDieWithTheirCoordinator,
    /// Answer one advertised Produce version in the shape of another.
    MisshapesOneProduceVersion,
}

impl Fault {
    /// Every fault, in specifications.
    pub open spec fn spec_all() -> Seq<Fault> {
        seq![
            Fault::WrongCorrelationEcho,
            Fault::InvertedVersionRange,
            Fault::OmitApiVersionsKey,
            Fault::WrongErrorOnUnsupportedVersion,
            Fault::ErrorBodyNotV0,
            Fault::AdvertiseWrongMaxInError,
            Fault::TrailingGarbage,
            Fault::FetchTrailingGarbage,
            Fault::FlexibleHeaderOnV3,
            Fault::MetadataEmptyBrokers,
            Fault::MetadataUnrequestedTopic,
            Fault::MetadataNonFlexibleHeader,
            Fault::ProduceWrongBaseOffset,
            Fault::FetchCorruptBatch,
            Fault::ProduceTopicIdUnknown,
            Fault::FetchWrongTopicId,
            Fault::ProduceAnswersAcksZero,
            Fault::MetadataRemintsTopicId,
            Fault::ProduceAcceptsFencedEpoch,
            Fault::TxnCommitMarksAborted,
            Fault::TxnOffsetsPublishImmediately,
            Fault::ProduceRewritesGzipBatches,
            Fault::ProduceRewritesSnappyBatches,
            Fault::ProduceRewritesLz4Batches,
            Fault::ProduceRewritesZstdBatches,
            Fault::FetchIgnoresMaxWait,
            Fault::MetadataLeaderIsUnknown,
            Fault::DescribeGroupsHidesMembers,
            Fault::OffsetCommitDropsMetadata,
            Fault::LeaveGroupKeepsTheMember,
            Fault::CreateTopicsIgnoresReplicationFactor,
            Fault::ListOffsetsTimestampReturnsLogEnd,
            Fault::DeleteTopicsKeepsTheTopic,
            Fault::ProduceAppendsIdempotentRetries,
            Fault::ProduceAcceptsSequenceGaps,
            Fault::TxnInitReusesEpoch,
            Fault::TxnIgnoresProducerEpoch,
            Fault::TxnUnannouncedWriteEscapes,
            Fault::TxnStableOffsetIgnoresOpenTxn,
            Fault::TxnAbortListOmitted,
            Fault::ListOffsetsWrongEarliest,
            Fault::FindCoordinatorWrongKey,
            Fault::OffsetFetchLosesCommit,
            Fault::OffsetFetchUnsetIsZero,
            Fault::FetchCorruptOnOldVersions,
            Fault::FetchPastEndSucceeds,
            Fault::MetadataUnknownTopicOmitted,
            Fault::CreateTopicsDuplicateSucceeds,
            Fault::CreateTopicsValidateOnlyCreates,
            Fault::JoinGroupAcceptsEmptyMemberId,
            Fault::SyncGroupRewritesAssignment,
            Fault::GroupIgnoresGeneration,
            Fault::ConsumerGroupEpochStuck,
            Fault::ConsumerGroupNullSubscriptionRevokes,
            Fault::ConsumerGroupAssignsNothing,
            Fault::ConsumerGroupIgnoresEpoch,
            Fault::SaslHandshakeHidesMechanisms,
            Fault::SaslAuthenticateWithoutHandshake,
            Fault::ScramNonceReplacesClients,
            Fault::ScramWeakIterations,
            Fault::ScramSkipsServerSignature,
            Fault::BrokersDisagreeOnLeader,
            Fault::ReplicasCollapseToTheLeader,
            Fault::CoordinatorIsWhoeverAsked,
            Fault::AnyBrokerAcceptsWrites,
            Fault::AnyBrokerServesGroups,
            Fault::LeadershipStaysWithTheStoppedBroker,
            Fault::OffsetsDieWithTheirCoordinator,
            Fault::MisshapesOneProduceVersion,
        ]
    }

    /// Every fault, each once.
    pub fn all() -> (r: Vec<Fault>)
        ensures
            r@ == Fault::spec_all(),
    {
        let faults: Vec<Fault> = vec![
            Fault::WrongCorrelationEcho,
            Fault::InvertedVersionRange,
            Fault::OmitApiVersionsKey,
            Fault::WrongErrorOnUnsupportedVersion,
            Fault::ErrorBodyNotV0,
            Fault::AdvertiseWrongMaxInError,
            Fault::TrailingGarbage,
            Fault::FetchTrailingGarbage,
            Fault::FlexibleHeaderOnV3,
            Fault::MetadataEmptyBrokers,
            Fault::MetadataUnrequestedTopic,
            Fault::MetadataNonFlexibleHeader,
            Fault::ProduceWrongBaseOffset,
            Fault::FetchCorruptBatch,
            Fault::ProduceTopicIdUnknown,
            Fault::FetchWrongTopicId,
            Fault::ProduceAnswersAcksZero,
            Fault::MetadataRemintsTopicId,
            Fault::ProduceAcceptsFencedEpoch,
            Fault::TxnCommitMarksAborted,
            Fault::TxnOffsetsPublishImmediately,
            Fault::ProduceRewritesGzipBatches,
            Fault::ProduceRewritesSnappyBatches,
            Fault::ProduceRewritesLz4Batches,
            Fault::ProduceRewritesZstdBatches,
            Fault::FetchIgnoresMaxWait,
            Fault::MetadataLeaderIsUnknown,
            Fault::DescribeGroupsHidesMembers,
            Fault::OffsetCommitDropsMetadata,
            Fault::LeaveGroupKeepsTheMember,
            Fault::CreateTopicsIgnoresReplicationFactor,
            Fault::ListOffsetsTimestampReturnsLogEnd,
            Fault::DeleteTopicsKeepsTheTopic,
            Fault::ProduceAppendsIdempotentRetries,
            Fault::ProduceAcceptsSequenceGaps,
            Fault::TxnInitReusesEpoch,
            Fault::TxnIgnoresProducerEpoch,
            Fault::TxnUnannouncedWriteEscapes,
            Fault::TxnStableOffsetIgnoresOpenTxn,
            Fault::TxnAbortListOmitted,
            Fault::ListOffsetsWrongEarliest,
            Fault::FindCoordinatorWrongKey,
            Fault::OffsetFetchLosesCommit,
            Fault::OffsetFetchUnsetIsZero,
            Fault::FetchCorruptOnOldVersions,
            Fault::FetchPastEndSucceeds,
            Fault::MetadataUnknownTopicOmitted,
            Fault::CreateTopicsDuplicateSucceeds,
            Fault::CreateTopicsValidateOnlyCreates,
            Fault::JoinGroupAcceptsEmptyMemberId,
            Fault::SyncGroupRewritesAssignment,
            Fault::GroupIgnoresGeneration,
            Fault::ConsumerGroupEpochStuck,
            Fault::ConsumerGroupNullSubscriptionRevokes,
            Fault::ConsumerGroupAssignsNothing,
            Fault::ConsumerGroupIgnoresEpoch,
            Fault::SaslHandshakeHidesMechanisms,
            Fault::SaslAuthenticateWithoutHandshake,
            Fault::ScramNonceReplacesClients,
            Fault::ScramWeakIterations,
            Fault::ScramSkipsServerSignature,
            Fault::BrokersDisagreeOnLeader,
            Fault::ReplicasCollapseToTheLeader,
            Fault::CoordinatorIsWhoeverAsked,
            Fault::AnyBrokerAcceptsWrites,
            Fault::AnyBrokerServesGroups,
            Fault::LeadershipStaysWithTheStoppedBroker,
            Fault::OffsetsDieWithTheirCoordinator,
            Fault::MisshapesOneProduceVersion,
        ];
        assert(faults@ =~= Fault::spec_all());
        faults
    }

    /// Where a fault stands among all of them.
    pub open spec fn rank(self) -> int {
        match self {
            Fault::WrongCorrelationEcho => 0,
            Fault::InvertedVersionRange => 1,
            Fault::OmitApiVersionsKey => 2,
            Fault::WrongErrorOnUnsupportedVersion => 3,
            Fault::ErrorBodyNotV0 => 4,
            Fault::AdvertiseWrongMaxInError => 5,
            Fault::TrailingGarbage => 6,
            Fault::FetchTrailingGarbage => 7,
            Fault::FlexibleHeaderOnV3 => 8,
            Fault::MetadataEmptyBrokers => 9,
            Fault::MetadataUnrequestedTopic => 10,
            Fault::MetadataNonFlexibleHeader => 11,
            Fault::ProduceWrongBaseOffset => 12,
            Fault::FetchCorruptBatch => 13,
            Fault::ProduceTopicIdUnknown => 14,
            Fault::FetchWrongTopicId => 15,
            Fault::ProduceAnswersAcksZero => 16,
            Fault::MetadataRemintsTopicId => 17,
            Fault::ProduceAcceptsFencedEpoch => 18,
            Fault::TxnCommitMarksAborted => 19,
            Fault::TxnOffsetsPublishImmediately => 20,
            Fault::ProduceRewritesGzipBatches => 21,
            Fault::ProduceRewritesSnappyBatches => 22,
            Fault::ProduceRewritesLz4Batches => 23,
            Fault::ProduceRewritesZstdBatches => 24,
            Fault::FetchIgnoresMaxWait => 25,
            Fault::MetadataLeaderIsUnknown => 26,
            Fault::DescribeGroupsHidesMembers => 27,
            Fault::OffsetCommitDropsMetadata => 28,
            Fault::LeaveGroupKeepsTheMember => 29,
            Fault::CreateTopicsIgnoresReplicationFactor => 30,
            Fault::ListOffsetsTimestampReturnsLogEnd => 31,
            Fault::DeleteTopicsKeepsTheTopic => 32,
            Fault::ProduceAppendsIdempotentRetries => 33,
            Fault::ProduceAcceptsSequenceGaps => 34,
            Fault::TxnInitReusesEpoch => 35,
            Fault::TxnIgnoresProducerEpoch => 36,
            Fault::TxnUnannouncedWriteEscapes => 37,
            Fault::TxnStableOffsetIgnoresOpenTxn => 38,
            Fault::TxnAbortListOmitted => 39,
            Fault::ListOffsetsWrongEarliest => 40,
            Fault::FindCoordinatorWrongKey => 41,
            Fault::OffsetFetchLosesCommit => 42,
            Fault::OffsetFetchUnsetIsZero => 43,
            Fault::FetchCorruptOnOldVersions => 44,
            Fault::FetchPastEndSucceeds => 45,
            Fault::MetadataUnknownTopicOmitted => 46,
            Fault::CreateTopicsDuplicateSucceeds => 47,
            Fault::CreateTopicsValidateOnlyCreates => 48,
            Fault::JoinGroupAcceptsEmptyMemberId => 49,
            Fault::SyncGroupRewritesAssignment => 50,
            Fault::GroupIgnoresGeneration => 51,
            Fault::ConsumerGroupEpochStuck => 52,
            Fault::ConsumerGroupNullSubscriptionRevokes => 53,
            Fault::ConsumerGroupAssignsNothing => 54,
            Fault::ConsumerGroupIgnoresEpoch => 55,
            Fault::SaslHandshakeHidesMechanisms => 56,
            Fault::SaslAuthenticateWithoutHandshake => 57,
            Fault::ScramNonceReplacesClients => 58,
            Fault::ScramWeakIterations => 59,
            Fault::ScramSkipsServerSignature => 60,
            Fault::BrokersDisagreeOnLeader => 61,
            Fault::ReplicasCollapseToTheLeader => 62,
            Fault::CoordinatorIsWhoeverAsked => 63,
            Fault::AnyBrokerAcceptsWrites => 64,
            Fault::AnyBrokerServesGroups => 65,
            Fault::LeadershipStaysWithTheStoppedBroker => 66,
            Fault::OffsetsDieWithTheirCoordinator => 67,
            Fault::MisshapesOneProduceVersion => 68,
        }
    }
}

/// Whether a fault is injected.
pub fn injected(faults: &Vec<Fault>, fault: Fault) -> (r: bool)
    ensures
        r == faults@.contains(fault),
{
    let mut i: usize = 0;
    while i < faults.len()
        invariant
            i <= faults@.len(),
            forall|j: int| 0 <= j < i ==> faults@[j] != fault,
        decreases faults@.len() - i,
    {
        if faults[i] == fault {
            assert(faults@[i as int] == fault);
            return true;
        }
        i = i + 1;
    }
    false
}

/// The list of all faults leaves none out and names none twice.
pub proof fn law_all_faults_listed_once(fault: Fault)
    ensures
        Fault::spec_all().contains(fault),
        forall|i: int, j: int|
            0 <= i < j < Fault::spec_all().len() ==> Fault::spec_all()[i] != Fault::spec_all()[j],
{
    assert(Fault::spec_all()[fault.rank()] == fault);
    assert forall|i: int, j: int| 0 <= i < j < Fault::spec_all().len() implies Fault::spec_all()[i]
        != Fault::spec_all()[j] by {
        assert(Fault::spec_all()[i].rank() == i);
        assert(Fault::spec_all()[j].rank() == j);
    }
}

} // verus!

//! Which faults a check is there to catch, and what each fault leaves alone.
//!
//! A trial is a run of a check against a subject that is conformant, or has
//! one of the faults that the check is there to catch. What the check asks for
//! before it comes to its point is not touched by them.

use vstd::prelude::*;

use crate::checks::server::ServerCheck;
use crate::checks::tape;
use crate::checks::tape::{FlowView, HaltView, StepView};
use crate::subject::Fault;
use crate::VerdictView;

verus! {

/// What a check asks for on the way to its point.
pub enum Deed {
    /// Metadata that names no topic: where the controller is.
    Cluster,
    /// Metadata that names a topic: who leads it.
    Topic,
    /// A write of the plain probe batch to the broker that leads the topic.
    Write,
    /// The shape of what a write is answered, at every version.
    Shape,
    /// A write under a producer's stamp, and the offset it is said to be at.
    Stamp,
    /// How much a log holds.
    Span,
    /// A fetch: whether it is answered in a frame that can be read.
    Read,
    /// The search for a coordinator.
    Find,
    /// A heartbeat of the newer group protocol.
    Beat,
}

/// Whether a fault touches what a deed of its kind comes to.
pub open spec fn disturbs(fault: Fault, deed: Deed) -> bool {
    match deed {
        Deed::Cluster => fault is MetadataEmptyBrokers || fault is MetadataNonFlexibleHeader,
        Deed::Topic => fault is MetadataEmptyBrokers || fault is MetadataNonFlexibleHeader
            || fault is MetadataLeaderIsUnknown || fault is BrokersDisagreeOnLeader,
        Deed::Write => fault is ProduceTopicIdUnknown,
        Deed::Shape => fault is MisshapesOneProduceVersion,
        Deed::Stamp => fault is ProduceWrongBaseOffset,
        Deed::Span => fault is ListOffsetsWrongEarliest,
        Deed::Read => fault is FetchTrailingGarbage,
        Deed::Find => fault is CoordinatorIsWhoeverAsked,
        Deed::Beat => fault is ConsumerGroupEpochStuck || fault is ConsumerGroupAssignsNothing,
    }
}

/// Whether no fault touches what a deed comes to.
pub open spec fn spares(faults: Seq<Fault>, deed: Deed) -> bool {
    forall|fault: Fault| #[trigger] faults.contains(fault) ==> !disturbs(fault, deed)
}

/// Whether a check is there to catch a fault.
///
/// Seven faults are spoken of nowhere here. What a SCRAM client says, and how
/// long an answer took, are given to a check from outside, so
/// `ScramNonceReplacesClients`, `ScramWeakIterations`,
/// `ScramSkipsServerSignature` and `FetchIgnoresMaxWait` show in nothing that a
/// run is made of. And no check writes the codecs that
/// `ProduceRewritesSnappyBatches`, `ProduceRewritesLz4Batches` and
/// `ProduceRewritesZstdBatches` are about.
pub open spec fn targets(check: ServerCheck, fault: Fault) -> bool {
    match check {
        ServerCheck::V0Basic => fault is InvertedVersionRange
            || fault is OmitApiVersionsKey
            || fault is TrailingGarbage,
        ServerCheck::CorrelationEcho => fault is WrongCorrelationEcho,
        ServerCheck::FlexibleV3 => fault is FlexibleHeaderOnV3,
        ServerCheck::UnsupportedVersion => fault is WrongErrorOnUnsupportedVersion
            || fault is ErrorBodyNotV0
            || fault is AdvertiseWrongMaxInError,
        ServerCheck::MetadataBasic => fault is MetadataEmptyBrokers
            || fault is MetadataUnrequestedTopic,
        ServerCheck::MetadataFlexibleHeader => fault is MetadataNonFlexibleHeader,
        ServerCheck::ProduceBasic => fault is ProduceWrongBaseOffset,
        ServerCheck::FetchBatchIntegrity => fault is FetchTrailingGarbage
            || fault is FetchCorruptBatch
            || fault is FetchCorruptOnOldVersions,
        ServerCheck::ProduceTopicId => fault is ProduceTopicIdUnknown,
        ServerCheck::FetchTopicId => fault is FetchWrongTopicId,
        ServerCheck::ListOffsetsEarliestLatest => fault is ListOffsetsWrongEarliest,
        ServerCheck::FindCoordinatorGroup => fault is FindCoordinatorWrongKey,
        ServerCheck::OffsetsCommitFetchRoundtrip => fault is OffsetFetchLosesCommit,
        ServerCheck::OffsetsUnsetIsSentinel => fault is OffsetFetchUnsetIsZero,
        ServerCheck::FetchOffsetOutOfRange => fault is FetchPastEndSucceeds,
        ServerCheck::MetadataUnknownTopic => fault is MetadataUnknownTopicOmitted,
        ServerCheck::CreateTopicsDuplicate => fault is CreateTopicsDuplicateSucceeds,
        ServerCheck::CreateTopicsValidateOnly => fault is CreateTopicsValidateOnlyCreates,
        ServerCheck::GroupsMemberIdRequired => fault is JoinGroupAcceptsEmptyMemberId,
        ServerCheck::GroupsAssignmentRoundTrips => fault is SyncGroupRewritesAssignment,
        ServerCheck::GroupsStaleGenerationFenced => fault is GroupIgnoresGeneration,
        ServerCheck::ConsumerGroupEpochAdvances => fault is ConsumerGroupEpochStuck,
        ServerCheck::ConsumerGroupAssignsSubscription => fault is ConsumerGroupAssignsNothing,
        ServerCheck::ConsumerGroupOmittedSubscription => {
            fault is ConsumerGroupNullSubscriptionRevokes
        },
        ServerCheck::ConsumerGroupFencedEpoch => fault is ConsumerGroupIgnoresEpoch,
        ServerCheck::SaslAuthenticateRequiresHandshake => fault is SaslAuthenticateWithoutHandshake,
        ServerCheck::SaslRefusalNamesMechanisms => fault is SaslHandshakeHidesMechanisms,
        ServerCheck::ProduceAcksZeroIsSilent => fault is ProduceAnswersAcksZero,
        ServerCheck::MetadataTopicIdIsStable => fault is MetadataRemintsTopicId,
        ServerCheck::ProduceCompressedPassthrough => fault is ProduceRewritesGzipBatches,
        ServerCheck::MetadataLeaderIsAKnownBroker => fault is MetadataLeaderIsUnknown,
        ServerCheck::DescribeGroupsReportsMembers => fault is DescribeGroupsHidesMembers,
        ServerCheck::OffsetsMetadataRoundTrips => fault is OffsetCommitDropsMetadata,
        ServerCheck::CreateTopicsImpossibleReplication => {
            fault is CreateTopicsIgnoresReplicationFactor
        },
        ServerCheck::GroupsLeaveUnregistersTheMember => fault is LeaveGroupKeepsTheMember,
        ServerCheck::ListOffsetsByTimestamp => fault is ListOffsetsTimestampReturnsLogEnd,
        ServerCheck::DeleteTopicsRemovesTheTopic => fault is DeleteTopicsKeepsTheTopic,
        ServerCheck::ProduceIdempotentRetryIsDeduped => fault is ProduceAppendsIdempotentRetries,
        ServerCheck::ProduceSequenceGapIsRefused => fault is ProduceAcceptsSequenceGaps,
        ServerCheck::TxnInitBumpsTheEpoch => fault is TxnInitReusesEpoch,
        ServerCheck::TxnStaleEpochIsFenced => fault is TxnIgnoresProducerEpoch,
        ServerCheck::TxnUnannouncedWriteStaysInTheTransaction => {
            fault is TxnUnannouncedWriteEscapes
        },
        ServerCheck::TxnOpenTransactionHoldsTheStableOffset => {
            fault is TxnStableOffsetIgnoresOpenTxn
        },
        ServerCheck::TxnFencedProducerCannotProduce => fault is ProduceAcceptsFencedEpoch,
        ServerCheck::TxnCommitIsVisibleToReaders => fault is TxnCommitMarksAborted,
        ServerCheck::TxnOffsetsWaitForTheCommit => fault is TxnOffsetsPublishImmediately,
        ServerCheck::TxnAbortIsReportedToReaders => fault is TxnAbortListOmitted,
        ServerCheck::ClusterBrokersAgreeOnTheLeader => fault is BrokersDisagreeOnLeader,
        ServerCheck::ClusterBrokersAgreeOnTheCoordinator => fault is CoordinatorIsWhoeverAsked,
        ServerCheck::ClusterReplicasSpanBrokers => fault is ReplicasCollapseToTheLeader,
        ServerCheck::ClusterWritesGoToTheLeader => fault is AnyBrokerAcceptsWrites,
        ServerCheck::ClusterGroupOffsetsNeedTheCoordinator => fault is AnyBrokerServesGroups,
        ServerCheck::ClusterLeadershipMovesWhenABrokerStops => {
            fault is LeadershipStaysWithTheStoppedBroker
        },
        ServerCheck::ClusterCommittedOffsetsOutliveTheCoordinator => {
            fault is OffsetsDieWithTheirCoordinator
        },
        ServerCheck::VersionsAdvertisedAreSpeakable => fault is MisshapesOneProduceVersion,
        _ => false,
    }
}

/// Whether faults are what a check is tried with: none, or one that it is
/// there to catch.
pub open spec fn is_trial(check: ServerCheck, faults: Seq<Fault>) -> bool {
    faults.len() == 0 || (faults.len() == 1 && targets(check, faults[0]))
}

/// Whether a flow, if it has ended, has judged the subject as its faults
/// deserve: it passes where it has none, and fails where it has one.
pub open spec fn judged(faults: Seq<Fault>, flow: FlowView<VerdictView>) -> bool {
    tape::spec_conclude(flow) matches StepView::Done(verdict) ==> if faults.len() == 0 {
        verdict == VerdictView::Pass
    } else {
        verdict is Fail
    }
}

/// Whether a verdict is what a subject deserves.
pub open spec fn deserved(sound: bool, verdict: VerdictView) -> bool {
    if sound {
        verdict == VerdictView::Pass
    } else {
        verdict is Fail
    }
}

/// Whether what stopped a flow is the subject's failing.
pub open spec fn fails(halt: HaltView) -> bool {
    match halt {
        HaltView::Ask(_) => false,
        HaltView::Stop(verdict, _) => verdict is Fail,
        HaltView::Broke(error, _) => error.spec_verdict() is Fail,
    }
}

} // verus!

//! The server-side checks: what they are called, what they require, and how
//! each is carried one step further.

use vstd::prelude::*;
use vstd::string::*;

use crate::checks::ctx::ServerCtx;
use crate::checks::server_basic;
use crate::checks::server_cluster;
use crate::checks::server_groups;
use crate::checks::server_log;
use crate::checks::server_sasl;
use crate::checks::server_txn;
use crate::checks::server_versions;
use crate::checks::tape;
use crate::checks::tape::{conclude, CheckError, Event, FlowView, Step};
use crate::raw::WireError;
use crate::report::{CheckOutcome, Report};
use crate::text;
use crate::text::line;
use crate::wire::Response;
use crate::{CheckId, Verdict, VerdictView};

verus! {

/// Which broker a [`ClusterControl`] is asked about, by both names the suite
/// knows: the node id Metadata gave and the address it advertised. Not every
/// implementation lets an operator choose node ids; the address is what the
/// suite connected to.
#[derive(Debug, Clone, Copy)]
pub struct Broker<'a> {
    pub node_id: i32,
    pub addr: &'a str,
}

/// How to take one of the subject's brokers away, and give it back. Nothing
/// in the protocol says "stop", so the suite is handed a way or skips the
/// checks that need one. `start` is called on every path out of a check, so
/// also on a node that was never stopped.
pub trait ClusterControl {
    /// Takes a broker out of the cluster, and returns once it is gone.
    fn stop(&self, broker: Broker<'_>) -> (r: Result<(), String>);

    /// Puts it back, and returns once it serves again.
    fn start(&self, broker: Broker<'_>) -> (r: Result<(), String>);
}

/// Carries out an order to stop or start a broker.
pub fn order<C: ClusterControl>(control: &C, stop: bool, node_id: i32, addr: &str) -> (r: Event)
    ensures
        r is Controlled,
        stop ==> call_ensures(
            C::stop,
            (control, (Broker { node_id, addr })),
            r->Controlled_0,
        ),
        !stop ==> call_ensures(
            C::start,
            (control, (Broker { node_id, addr })),
            r->Controlled_0,
        ),
{
    let broker = Broker { node_id, addr };
    if stop {
        Event::Controlled(control.stop(broker))
    } else {
        Event::Controlled(control.start(broker))
    }
}

/// The checks that a server is put to, in run order.
#[derive(Debug, Clone, Copy, PartialEq, Eq, Structural)]
pub enum ServerCheck {
    V0Basic,
    CorrelationEcho,
    FlexibleV3,
    UnsupportedVersion,
    MetadataBasic,
    MetadataFlexibleHeader,
    ProduceBasic,
    FetchBatchIntegrity,
    ProduceTopicId,
    FetchTopicId,
    ListOffsetsEarliestLatest,
    FindCoordinatorGroup,
    OffsetsCommitFetchRoundtrip,
    OffsetsUnsetIsSentinel,
    FetchOffsetOutOfRange,
    MetadataUnknownTopic,
    CreateTopicsDuplicate,
    CreateTopicsValidateOnly,
    GroupsMemberIdRequired,
    GroupsAssignmentRoundTrips,
    GroupsStaleGenerationFenced,
    ConsumerGroupEpochAdvances,
    ConsumerGroupAssignsSubscription,
    ConsumerGroupOmittedSubscription,
    ConsumerGroupFencedEpoch,
    SaslAuthenticateRequiresHandshake,
    SaslRefusalNamesMechanisms,
    ScramNonceExtendsClient,
    ScramIterationFloor,
    ScramServerProvesItself,
    ProduceAcksZeroIsSilent,
    MetadataTopicIdIsStable,
    ProduceCompressedPassthrough,
    FetchLongPollContract,
    MetadataLeaderIsAKnownBroker,
    DescribeGroupsReportsMembers,
    OffsetsMetadataRoundTrips,
    CreateTopicsImpossibleReplication,
    GroupsLeaveUnregistersTheMember,
    ListOffsetsByTimestamp,
    DeleteTopicsRemovesTheTopic,
    ProduceIdempotentRetryIsDeduped,
    ProduceSequenceGapIsRefused,
    TxnInitBumpsTheEpoch,
    TxnStaleEpochIsFenced,
    TxnUnannouncedWriteStaysInTheTransaction,
    TxnOpenTransactionHoldsTheStableOffset,
    TxnFencedProducerCannotProduce,
    TxnCommitIsVisibleToReaders,
    TxnOffsetsWaitForTheCommit,
    TxnAbortIsReportedToReaders,
    ClusterBrokersAgreeOnTheLeader,
    ClusterBrokersAgreeOnTheCoordinator,
    ClusterReplicasSpanBrokers,
    ClusterWritesGoToTheLeader,
    ClusterGroupOffsetsNeedTheCoordinator,
    ClusterLeadershipMovesWhenABrokerStops,
    ClusterCommittedOffsetsOutliveTheCoordinator,
    VersionsAdvertisedAreSpeakable,
}

/// Every server-side check, in run order.
pub open spec fn spec_server_checks() -> Seq<ServerCheck> {
    seq![
        ServerCheck::V0Basic,
        ServerCheck::CorrelationEcho,
        ServerCheck::FlexibleV3,
        ServerCheck::UnsupportedVersion,
        ServerCheck::MetadataBasic,
        ServerCheck::MetadataFlexibleHeader,
        ServerCheck::ProduceBasic,
        ServerCheck::FetchBatchIntegrity,
        ServerCheck::ProduceTopicId,
        ServerCheck::FetchTopicId,
        ServerCheck::ListOffsetsEarliestLatest,
        ServerCheck::FindCoordinatorGroup,
        ServerCheck::OffsetsCommitFetchRoundtrip,
        ServerCheck::OffsetsUnsetIsSentinel,
        ServerCheck::FetchOffsetOutOfRange,
        ServerCheck::MetadataUnknownTopic,
        ServerCheck::CreateTopicsDuplicate,
        ServerCheck::CreateTopicsValidateOnly,
        ServerCheck::GroupsMemberIdRequired,
        ServerCheck::GroupsAssignmentRoundTrips,
        ServerCheck::GroupsStaleGenerationFenced,
        ServerCheck::ConsumerGroupEpochAdvances,
        ServerCheck::ConsumerGroupAssignsSubscription,
        ServerCheck::ConsumerGroupOmittedSubscription,
        ServerCheck::ConsumerGroupFencedEpoch,
        ServerCheck::SaslAuthenticateRequiresHandshake,
        ServerCheck::SaslRefusalNamesMechanisms,
        ServerCheck::ScramNonceExtendsClient,
        ServerCheck::ScramIterationFloor,
        ServerCheck::ScramServerProvesItself,
        ServerCheck::ProduceAcksZeroIsSilent,
        ServerCheck::MetadataTopicIdIsStable,
        ServerCheck::ProduceCompressedPassthrough,
        ServerCheck::FetchLongPollContract,
        ServerCheck::MetadataLeaderIsAKnownBroker,
        ServerCheck::DescribeGroupsReportsMembers,
        ServerCheck::OffsetsMetadataRoundTrips,
        ServerCheck::CreateTopicsImpossibleReplication,
        ServerCheck::GroupsLeaveUnregistersTheMember,
        ServerCheck::ListOffsetsByTimestamp,
        ServerCheck::DeleteTopicsRemovesTheTopic,
        ServerCheck::ProduceIdempotentRetryIsDeduped,
        ServerCheck::ProduceSequenceGapIsRefused,
        ServerCheck::TxnInitBumpsTheEpoch,
        ServerCheck::TxnStaleEpochIsFenced,
        ServerCheck::TxnUnannouncedWriteStaysInTheTransaction,
        ServerCheck::TxnOpenTransactionHoldsTheStableOffset,
        ServerCheck::TxnFencedProducerCannotProduce,
        ServerCheck::TxnCommitIsVisibleToReaders,
        ServerCheck::TxnOffsetsWaitForTheCommit,
        ServerCheck::TxnAbortIsReportedToReaders,
        ServerCheck::ClusterBrokersAgreeOnTheLeader,
        ServerCheck::ClusterBrokersAgreeOnTheCoordinator,
        ServerCheck::ClusterReplicasSpanBrokers,
        ServerCheck::ClusterWritesGoToTheLeader,
        ServerCheck::ClusterGroupOffsetsNeedTheCoordinator,
        ServerCheck::ClusterLeadershipMovesWhenABrokerStops,
        ServerCheck::ClusterCommittedOffsetsOutliveTheCoordinator,
        ServerCheck::VersionsAdvertisedAreSpeakable,
    ]
}

pub fn server_checks() -> (r: Vec<ServerCheck>)
    ensures
        r@ == spec_server_checks(),
{
    let checks: Vec<ServerCheck> = vec![
        ServerCheck::V0Basic,
        ServerCheck::CorrelationEcho,
        ServerCheck::FlexibleV3,
        ServerCheck::UnsupportedVersion,
        ServerCheck::MetadataBasic,
        ServerCheck::MetadataFlexibleHeader,
        ServerCheck::ProduceBasic,
        ServerCheck::FetchBatchIntegrity,
        ServerCheck::ProduceTopicId,
        ServerCheck::FetchTopicId,
        ServerCheck::ListOffsetsEarliestLatest,
        ServerCheck::FindCoordinatorGroup,
        ServerCheck::OffsetsCommitFetchRoundtrip,
        ServerCheck::OffsetsUnsetIsSentinel,
        ServerCheck::FetchOffsetOutOfRange,
        ServerCheck::MetadataUnknownTopic,
        ServerCheck::CreateTopicsDuplicate,
        ServerCheck::CreateTopicsValidateOnly,
        ServerCheck::GroupsMemberIdRequired,
        ServerCheck::GroupsAssignmentRoundTrips,
        ServerCheck::GroupsStaleGenerationFenced,
        ServerCheck::ConsumerGroupEpochAdvances,
        ServerCheck::ConsumerGroupAssignsSubscription,
        ServerCheck::ConsumerGroupOmittedSubscription,
        ServerCheck::ConsumerGroupFencedEpoch,
        ServerCheck::SaslAuthenticateRequiresHandshake,
        ServerCheck::SaslRefusalNamesMechanisms,
        ServerCheck::ScramNonceExtendsClient,
        ServerCheck::ScramIterationFloor,
        ServerCheck::ScramServerProvesItself,
        ServerCheck::ProduceAcksZeroIsSilent,
        ServerCheck::MetadataTopicIdIsStable,
        ServerCheck::ProduceCompressedPassthrough,
        ServerCheck::FetchLongPollContract,
        ServerCheck::MetadataLeaderIsAKnownBroker,
        ServerCheck::DescribeGroupsReportsMembers,
        ServerCheck::OffsetsMetadataRoundTrips,
        ServerCheck::CreateTopicsImpossibleReplication,
        ServerCheck::GroupsLeaveUnregistersTheMember,
        ServerCheck::ListOffsetsByTimestamp,
        ServerCheck::DeleteTopicsRemovesTheTopic,
        ServerCheck::ProduceIdempotentRetryIsDeduped,
        ServerCheck::ProduceSequenceGapIsRefused,
        ServerCheck::TxnInitBumpsTheEpoch,
        ServerCheck::TxnStaleEpochIsFenced,
        ServerCheck::TxnUnannouncedWriteStaysInTheTransaction,
        ServerCheck::TxnOpenTransactionHoldsTheStableOffset,
        ServerCheck::TxnFencedProducerCannotProduce,
        ServerCheck::TxnCommitIsVisibleToReaders,
        ServerCheck::TxnOffsetsWaitForTheCommit,
        ServerCheck::TxnAbortIsReportedToReaders,
        ServerCheck::ClusterBrokersAgreeOnTheLeader,
        ServerCheck::ClusterBrokersAgreeOnTheCoordinator,
        ServerCheck::ClusterReplicasSpanBrokers,
        ServerCheck::ClusterWritesGoToTheLeader,
        ServerCheck::ClusterGroupOffsetsNeedTheCoordinator,
        ServerCheck::ClusterLeadershipMovesWhenABrokerStops,
        ServerCheck::ClusterCommittedOffsetsOutliveTheCoordinator,
        ServerCheck::VersionsAdvertisedAreSpeakable,
    ];
    assert(checks@ =~= spec_server_checks());
    checks
}

impl ServerCheck {
    /// The check's stable name, in specifications.
    pub open spec fn spec_id(self) -> Seq<char> {
        match self {
            ServerCheck::V0Basic => "api-versions/v0-basic"@,
            ServerCheck::CorrelationEcho => "api-versions/correlation-echo"@,
            ServerCheck::FlexibleV3 => "api-versions/flexible-v3"@,
            ServerCheck::UnsupportedVersion => "api-versions/unsupported-version-error"@,
            ServerCheck::MetadataBasic => "metadata/basic"@,
            ServerCheck::MetadataFlexibleHeader => "metadata/flexible-response-header"@,
            ServerCheck::ProduceBasic => "produce/basic"@,
            ServerCheck::FetchBatchIntegrity => "fetch/batch-integrity"@,
            ServerCheck::ProduceTopicId => "produce/topic-id"@,
            ServerCheck::FetchTopicId => "fetch/topic-id"@,
            ServerCheck::ListOffsetsEarliestLatest => "list-offsets/earliest-latest"@,
            ServerCheck::FindCoordinatorGroup => "find-coordinator/group"@,
            ServerCheck::OffsetsCommitFetchRoundtrip => "offsets/commit-fetch-roundtrip"@,
            ServerCheck::OffsetsUnsetIsSentinel => "offsets/unset-is-sentinel"@,
            ServerCheck::FetchOffsetOutOfRange => "fetch/offset-out-of-range"@,
            ServerCheck::MetadataUnknownTopic => "metadata/unknown-topic"@,
            ServerCheck::CreateTopicsDuplicate => "create-topics/duplicate"@,
            ServerCheck::CreateTopicsValidateOnly => "create-topics/validate-only"@,
            ServerCheck::GroupsMemberIdRequired => "groups/member-id-required"@,
            ServerCheck::GroupsAssignmentRoundTrips => "groups/assignment-round-trips"@,
            ServerCheck::GroupsStaleGenerationFenced => "groups/stale-generation-fenced"@,
            ServerCheck::ConsumerGroupEpochAdvances => "consumer-group/epoch-advances"@,
            ServerCheck::ConsumerGroupAssignsSubscription => "consumer-group/assigns-subscription"@,
            ServerCheck::ConsumerGroupOmittedSubscription => "consumer-group/omitted-subscription-is-unchanged"@,
            ServerCheck::ConsumerGroupFencedEpoch => "consumer-group/fenced-epoch"@,
            ServerCheck::SaslAuthenticateRequiresHandshake => "sasl/authenticate-requires-handshake"@,
            ServerCheck::SaslRefusalNamesMechanisms => "sasl/refusal-names-mechanisms"@,
            ServerCheck::ScramNonceExtendsClient => "sasl/scram-nonce-extends-client"@,
            ServerCheck::ScramIterationFloor => "sasl/scram-iteration-floor"@,
            ServerCheck::ScramServerProvesItself => "sasl/scram-server-proves-itself"@,
            ServerCheck::ProduceAcksZeroIsSilent => "produce/acks-zero-is-silent"@,
            ServerCheck::MetadataTopicIdIsStable => "metadata/topic-id-is-stable"@,
            ServerCheck::ProduceCompressedPassthrough => "produce/compressed-batch-passthrough"@,
            ServerCheck::FetchLongPollContract => "fetch/long-poll-contract"@,
            ServerCheck::MetadataLeaderIsAKnownBroker => "metadata/leader-is-a-known-broker"@,
            ServerCheck::DescribeGroupsReportsMembers => "admin/describe-groups-reports-members"@,
            ServerCheck::OffsetsMetadataRoundTrips => "offsets/metadata-round-trips"@,
            ServerCheck::CreateTopicsImpossibleReplication => "create-topics/impossible-replication"@,
            ServerCheck::GroupsLeaveUnregistersTheMember => "groups/leave-unregisters-the-member"@,
            ServerCheck::ListOffsetsByTimestamp => "list-offsets/by-timestamp"@,
            ServerCheck::DeleteTopicsRemovesTheTopic => "admin/delete-topics-removes-the-topic"@,
            ServerCheck::ProduceIdempotentRetryIsDeduped => "produce/idempotent-retry-is-deduped"@,
            ServerCheck::ProduceSequenceGapIsRefused => "produce/sequence-gap-is-refused"@,
            ServerCheck::TxnInitBumpsTheEpoch => "txn/init-bumps-the-epoch"@,
            ServerCheck::TxnStaleEpochIsFenced => "txn/stale-epoch-is-fenced"@,
            ServerCheck::TxnUnannouncedWriteStaysInTheTransaction => "txn/unannounced-write-stays-in-the-transaction"@,
            ServerCheck::TxnOpenTransactionHoldsTheStableOffset => "txn/open-transaction-holds-the-stable-offset"@,
            ServerCheck::TxnFencedProducerCannotProduce => "txn/fenced-producer-cannot-produce"@,
            ServerCheck::TxnCommitIsVisibleToReaders => "txn/commit-is-visible-to-readers"@,
            ServerCheck::TxnOffsetsWaitForTheCommit => "txn/offsets-wait-for-the-commit"@,
            ServerCheck::TxnAbortIsReportedToReaders => "txn/abort-is-reported-to-readers"@,
            ServerCheck::ClusterBrokersAgreeOnTheLeader => "cluster/brokers-agree-on-the-leader"@,
            ServerCheck::ClusterBrokersAgreeOnTheCoordinator => "cluster/brokers-agree-on-the-coordinator"@,
            ServerCheck::ClusterReplicasSpanBrokers => "cluster/replicas-span-brokers"@,
            ServerCheck::ClusterWritesGoToTheLeader => "cluster/writes-go-to-the-leader"@,
            ServerCheck::ClusterGroupOffsetsNeedTheCoordinator => "cluster/group-offsets-need-the-coordinator"@,
            ServerCheck::ClusterLeadershipMovesWhenABrokerStops => "cluster/leadership-moves-when-a-broker-stops"@,
            ServerCheck::ClusterCommittedOffsetsOutliveTheCoordinator => "cluster/committed-offsets-outlive-the-coordinator"@,
            ServerCheck::VersionsAdvertisedAreSpeakable => "versions/advertised-versions-are-speakable"@,
        }
    }

    /// The check's stable name. Baselines and reports key on it.
    pub fn id(&self) -> (r: &'static str)
        ensures
            r@ == self.spec_id(),
    {
        match self {
            ServerCheck::V0Basic => "api-versions/v0-basic",
            ServerCheck::CorrelationEcho => "api-versions/correlation-echo",
            ServerCheck::FlexibleV3 => "api-versions/flexible-v3",
            ServerCheck::UnsupportedVersion => "api-versions/unsupported-version-error",
            ServerCheck::MetadataBasic => "metadata/basic",
            ServerCheck::MetadataFlexibleHeader => "metadata/flexible-response-header",
            ServerCheck::ProduceBasic => "produce/basic",
            ServerCheck::FetchBatchIntegrity => "fetch/batch-integrity",
            ServerCheck::ProduceTopicId => "produce/topic-id",
            ServerCheck::FetchTopicId => "fetch/topic-id",
            ServerCheck::ListOffsetsEarliestLatest => "list-offsets/earliest-latest",
            ServerCheck::FindCoordinatorGroup => "find-coordinator/group",
            ServerCheck::OffsetsCommitFetchRoundtrip => "offsets/commit-fetch-roundtrip",
            ServerCheck::OffsetsUnsetIsSentinel => "offsets/unset-is-sentinel",
            ServerCheck::FetchOffsetOutOfRange => "fetch/offset-out-of-range",
            ServerCheck::MetadataUnknownTopic => "metadata/unknown-topic",
            ServerCheck::CreateTopicsDuplicate => "create-topics/duplicate",
            ServerCheck::CreateTopicsValidateOnly => "create-topics/validate-only",
            ServerCheck::GroupsMemberIdRequired => "groups/member-id-required",
            ServerCheck::GroupsAssignmentRoundTrips => "groups/assignment-round-trips",
            ServerCheck::GroupsStaleGenerationFenced => "groups/stale-generation-fenced",
            ServerCheck::ConsumerGroupEpochAdvances => "consumer-group/epoch-advances",
            ServerCheck::ConsumerGroupAssignsSubscription => "consumer-group/assigns-subscription",
            ServerCheck::ConsumerGroupOmittedSubscription => "consumer-group/omitted-subscription-is-unchanged",
            ServerCheck::ConsumerGroupFencedEpoch => "consumer-group/fenced-epoch",
            ServerCheck::SaslAuthenticateRequiresHandshake => "sasl/authenticate-requires-handshake",
            ServerCheck::SaslRefusalNamesMechanisms => "sasl/refusal-names-mechanisms",
            ServerCheck::ScramNonceExtendsClient => "sasl/scram-nonce-extends-client",
            ServerCheck::ScramIterationFloor => "sasl/scram-iteration-floor",
            ServerCheck::ScramServerProvesItself => "sasl/scram-server-proves-itself",
            ServerCheck::ProduceAcksZeroIsSilent => "produce/acks-zero-is-silent",
            ServerCheck::MetadataTopicIdIsStable => "metadata/topic-id-is-stable",
            ServerCheck::ProduceCompressedPassthrough => "produce/compressed-batch-passthrough",
            ServerCheck::FetchLongPollContract => "fetch/long-poll-contract",
            ServerCheck::MetadataLeaderIsAKnownBroker => "metadata/leader-is-a-known-broker",
            ServerCheck::DescribeGroupsReportsMembers => "admin/describe-groups-reports-members",
            ServerCheck::OffsetsMetadataRoundTrips => "offsets/metadata-round-trips",
            ServerCheck::CreateTopicsImpossibleReplication => "create-topics/impossible-replication",
            ServerCheck::GroupsLeaveUnregistersTheMember => "groups/leave-unregisters-the-member",
            ServerCheck::ListOffsetsByTimestamp => "list-offsets/by-timestamp",
            ServerCheck::DeleteTopicsRemovesTheTopic => "admin/delete-topics-removes-the-topic",
            ServerCheck::ProduceIdempotentRetryIsDeduped => "produce/idempotent-retry-is-deduped",
            ServerCheck::ProduceSequenceGapIsRefused => "produce/sequence-gap-is-refused",
            ServerCheck::TxnInitBumpsTheEpoch => "txn/init-bumps-the-epoch",
            ServerCheck::TxnStaleEpochIsFenced => "txn/stale-epoch-is-fenced",
            ServerCheck::TxnUnannouncedWriteStaysInTheTransaction => "txn/unannounced-write-stays-in-the-transaction",
            ServerCheck::TxnOpenTransactionHoldsTheStableOffset => "txn/open-transaction-holds-the-stable-offset",
            ServerCheck::TxnFencedProducerCannotProduce => "txn/fenced-producer-cannot-produce",
            ServerCheck::TxnCommitIsVisibleToReaders => "txn/commit-is-visible-to-readers",
            ServerCheck::TxnOffsetsWaitForTheCommit => "txn/offsets-wait-for-the-commit",
            ServerCheck::TxnAbortIsReportedToReaders => "txn/abort-is-reported-to-readers",
            ServerCheck::ClusterBrokersAgreeOnTheLeader => "cluster/brokers-agree-on-the-leader",
            ServerCheck::ClusterBrokersAgreeOnTheCoordinator => "cluster/brokers-agree-on-the-coordinator",
            ServerCheck::ClusterReplicasSpanBrokers => "cluster/replicas-span-brokers",
            ServerCheck::ClusterWritesGoToTheLeader => "cluster/writes-go-to-the-leader",
            ServerCheck::ClusterGroupOffsetsNeedTheCoordinator => "cluster/group-offsets-need-the-coordinator",
            ServerCheck::ClusterLeadershipMovesWhenABrokerStops => "cluster/leadership-moves-when-a-broker-stops",
            ServerCheck::ClusterCommittedOffsetsOutliveTheCoordinator => "cluster/committed-offsets-outlive-the-coordinator",
            ServerCheck::VersionsAdvertisedAreSpeakable => "versions/advertised-versions-are-speakable",
        }
    }

    /// What the check requires, in specifications.
    pub open spec fn spec_requirement(self) -> Seq<char> {
        match self {
            ServerCheck::V0Basic =>
                "responds to ApiVersions v0 with error NONE, advertises ApiVersions itself, and every advertised range has min <= max"@,
            ServerCheck::CorrelationEcho =>
                "echoes the request correlation id, including unusual values"@,
            ServerCheck::FlexibleV3 =>
                "answers a flexible (v3+) ApiVersions request, including the tagged-field sections, with a v0 response header"@,
            ServerCheck::UnsupportedVersion =>
                "rejects an ApiVersions request newer than it supports with UNSUPPORTED_VERSION in a v0-encoded response that advertises the supported range"@,
            ServerCheck::MetadataBasic =>
                "answers a Metadata request naming no topics with a non-empty brokers list (unique node ids, valid ports) and no topics the client did not ask about"@,
            ServerCheck::MetadataFlexibleHeader =>
                "answers a flexible (v9+) Metadata request with a v1 response header carrying the tagged-fields section — the ApiVersions always-v0 quirk does not apply to other apis"@,
            ServerCheck::ProduceBasic =>
                "accepts a produce (acks=-1) of one well-formed record batch to a freshly created topic with error NONE and assigns it base offset 0"@,
            ServerCheck::FetchBatchIntegrity =>
                "a fetch returns the produced record batch byte-identical from the magic byte onward (crc included) — only base_offset and partition_leader_epoch, which sit outside the crc, may be rewritten"@,
            ServerCheck::ProduceTopicId =>
                "accepts a topic-id-addressed produce (v13+) to a fresh topic, the id learned from CreateTopics, with error NONE"@,
            ServerCheck::FetchTopicId =>
                "serves a topic-id-addressed fetch (v13+), echoing the requested topic id and returning the produced batch intact"@,
            ServerCheck::ListOffsetsEarliestLatest =>
                "answers timestamp -2 with the log start and -1 with the log end, so that the span between them is exactly the records produced"@,
            ServerCheck::FindCoordinatorGroup =>
                "names a reachable coordinator for a group key, answering in the shape the negotiated version defines (v4+ echoes each requested key in `coordinators`)"@,
            ServerCheck::OffsetsCommitFetchRoundtrip =>
                "returns from OffsetFetch exactly the offset OffsetCommit was given for that group, topic and partition"@,
            ServerCheck::OffsetsUnsetIsSentinel =>
                "reports a partition a group never committed as offset -1 with no error, rather than as 0 or as a failure"@,
            ServerCheck::FetchOffsetOutOfRange =>
                "answers a fetch past the high watermark with OFFSET_OUT_OF_RANGE rather than with an empty batch set"@,
            ServerCheck::MetadataUnknownTopic =>
                "names a topic it does not have in the response, carrying UNKNOWN_TOPIC_OR_PARTITION, rather than omitting it"@,
            ServerCheck::CreateTopicsDuplicate =>
                "refuses a second CreateTopics for an existing topic with TOPIC_ALREADY_EXISTS"@,
            ServerCheck::CreateTopicsValidateOnly =>
                "a validate_only request reports what would happen without creating the topic"@,
            ServerCheck::GroupsMemberIdRequired =>
                "refuses a JoinGroup (v4+) that carries no member id, answering MEMBER_ID_REQUIRED with an id to rejoin with"@,
            ServerCheck::GroupsAssignmentRoundTrips =>
                "hands a member the assignment bytes its leader supplied, unexamined and unchanged"@,
            ServerCheck::GroupsStaleGenerationFenced =>
                "refuses a Heartbeat carrying a generation the group has moved past, with ILLEGAL_GENERATION"@,
            ServerCheck::ConsumerGroupEpochAdvances =>
                "admits a KIP-848 member that names itself at epoch 0, answering with a non-zero epoch and a usable heartbeat interval"@,
            ServerCheck::ConsumerGroupAssignsSubscription =>
                "assigns the partitions of a subscribed topic, addressed by topic id"@,
            ServerCheck::ConsumerGroupOmittedSubscription =>
                "treats a heartbeat that omits subscribed_topic_names as saying nothing about the subscription, not as unsubscribing"@,
            ServerCheck::ConsumerGroupFencedEpoch =>
                "refuses a heartbeat carrying an epoch the member has moved past, with FENCED_MEMBER_EPOCH"@,
            ServerCheck::SaslAuthenticateRequiresHandshake =>
                "refuses a SASL token on a connection that negotiated no mechanism, as a state error rather than as bad credentials"@,
            ServerCheck::SaslRefusalNamesMechanisms =>
                "answers an unsupported mechanism with UNSUPPORTED_SASL_MECHANISM and the mechanisms it does support, so a client has something to fall back to"@,
            ServerCheck::ScramNonceExtendsClient =>
                "answers a SCRAM client-first with a nonce that begins with the client's own, rather than replacing it"@,
            ServerCheck::ScramIterationFloor =>
                "states a salt and an iteration count at or above RFC 7677's floor of 4096 for SCRAM-SHA-256"@,
            ServerCheck::ScramServerProvesItself =>
                "completes a SCRAM exchange with a server signature that verifies, proving it holds the account's key material"@,
            ServerCheck::ProduceAcksZeroIsSilent =>
                "sends no response at all to an acks=0 produce, rather than a frame the client has no correlation id outstanding for"@,
            ServerCheck::MetadataTopicIdIsStable =>
                "reports the same topic id for a topic that has not gone away, so id-addressed requests keep working"@,
            ServerCheck::ProduceCompressedPassthrough =>
                "returns a gzip-compressed batch exactly as it was produced, rather than recompressing it and rewriting bytes the producer's crc covered"@,
            ServerCheck::FetchLongPollContract =>
                "waits out max_wait_ms for a fetch it cannot yet satisfy, and answers one it can without spending the wait"@,
            ServerCheck::MetadataLeaderIsAKnownBroker =>
                "names every partition leader in the same response's broker list, so a client has somewhere to route to"@,
            ServerCheck::DescribeGroupsReportsMembers =>
                "reports the members a live group has, rather than describing it as empty"@,
            ServerCheck::OffsetsMetadataRoundTrips =>
                "returns the metadata string a commit carried exactly as it was given, rather than dropping or altering it beside an offset that reads back fine"@,
            ServerCheck::CreateTopicsImpossibleReplication =>
                "refuses a replication factor the cluster cannot satisfy rather than creating the topic with fewer replicas than were asked for"@,
            ServerCheck::GroupsLeaveUnregistersTheMember =>
                "stops accepting heartbeats from a member that has left, so its partitions are reassigned instead of being held by a member that is gone"@,
            ServerCheck::ListOffsetsByTimestamp =>
                "answers a timestamp with the first offset at or after it, and a timestamp past every record with -1 rather than with either end of the log"@,
            ServerCheck::DeleteTopicsRemovesTheTopic =>
                "a topic it reports deleted stops existing, rather than being acknowledged and left in place"@,
            ServerCheck::ProduceIdempotentRetryIsDeduped =>
                "stores one copy of a batch sent twice under the same producer id, epoch and sequence, however it answers the second one"@,
            ServerCheck::ProduceSequenceGapIsRefused =>
                "refuses a stamped batch whose sequence skips past what it last accepted, with OUT_OF_ORDER_SEQUENCE_NUMBER rather than by silently accepting the gap"@,
            ServerCheck::TxnInitBumpsTheEpoch =>
                "hands a producer re-taking a transactional id a higher epoch than its predecessor, which is the only thing that tells the two apart"@,
            ServerCheck::TxnStaleEpochIsFenced =>
                "refuses a transaction request carrying a superseded producer epoch, rather than letting a fenced producer write into its successor's transaction"@,
            ServerCheck::TxnUnannouncedWriteStaysInTheTransaction =>
                "either refuses a transactional produce to a partition the client never announced, or brings that partition into the transaction itself — never writes the records outside it"@,
            ServerCheck::TxnOpenTransactionHoldsTheStableOffset =>
                "keeps the last stable offset below the high watermark while a transaction is open, so read_committed consumers are not shown records that may yet be aborted"@,
            ServerCheck::TxnFencedProducerCannotProduce =>
                "refuses a transactional produce carrying a superseded epoch at the partition leader, not only at the coordinator"@,
            ServerCheck::TxnCommitIsVisibleToReaders =>
                "moves the stable offset past a committed transaction's records and does not name it in the aborted list, so read_committed consumers can see it"@,
            ServerCheck::TxnOffsetsWaitForTheCommit =>
                "holds offsets committed inside a transaction back until it commits, so the input is never marked processed while the output can still be thrown away"@,
            ServerCheck::TxnAbortIsReportedToReaders =>
                "names the aborted transaction in a read_committed fetch over its records, which is the only way a client can tell they were thrown away"@,
            ServerCheck::ClusterBrokersAgreeOnTheLeader =>
                "every broker names the same leader for a partition, so a                       client that refreshes metadata against a different broker                       than last time is not sent somewhere else"@,
            ServerCheck::ClusterBrokersAgreeOnTheCoordinator =>
                "every broker names the same coordinator for a group, so a                       group does not end up with as many coordinators as it has                       bootstrap addresses"@,
            ServerCheck::ClusterReplicasSpanBrokers =>
                "places a topic asked for n replicas on n distinct brokers,                       with the leader among them and the in-sync set drawn from                       them"@,
            ServerCheck::ClusterWritesGoToTheLeader =>
                "refuses a produce to a broker that does not lead the                       partition, rather than appending to a log the leader knows                       nothing about"@,
            ServerCheck::ClusterGroupOffsetsNeedTheCoordinator =>
                "refuses an offset commit on a broker that does not                       coordinate the group, rather than storing it where the                       coordinator will never see it"@,
            ServerCheck::ClusterLeadershipMovesWhenABrokerStops =>
                "moves a partition's leadership to one of its replicas when                       the leader stops, and the new leader accepts writes —                       otherwise the replicas were decoration"@,
            ServerCheck::ClusterCommittedOffsetsOutliveTheCoordinator =>
                "gives the group a new coordinator when its own stops, still                       reporting the offset it acknowledged — a commit is only as                       durable as what answers after the failure"@,
            ServerCheck::VersionsAdvertisedAreSpeakable =>
                "answers every version of every api it advertises, in the shape that version specifies — an advertised range the server cannot serve sends clients to a version that fails"@,
        }
    }

    /// What the check requires, phrased as a claim about the subject.
    pub fn requirement(&self) -> (r: &'static str)
        ensures
            r@ == self.spec_requirement(),
    {
        match self {
            ServerCheck::V0Basic =>
                "responds to ApiVersions v0 with error NONE, advertises ApiVersions itself, and every advertised range has min <= max",
            ServerCheck::CorrelationEcho =>
                "echoes the request correlation id, including unusual values",
            ServerCheck::FlexibleV3 =>
                "answers a flexible (v3+) ApiVersions request, including the tagged-field sections, with a v0 response header",
            ServerCheck::UnsupportedVersion =>
                "rejects an ApiVersions request newer than it supports with UNSUPPORTED_VERSION in a v0-encoded response that advertises the supported range",
            ServerCheck::MetadataBasic =>
                "answers a Metadata request naming no topics with a non-empty brokers list (unique node ids, valid ports) and no topics the client did not ask about",
            ServerCheck::MetadataFlexibleHeader =>
                "answers a flexible (v9+) Metadata request with a v1 response header carrying the tagged-fields section — the ApiVersions always-v0 quirk does not apply to other apis",
            ServerCheck::ProduceBasic =>
                "accepts a produce (acks=-1) of one well-formed record batch to a freshly created topic with error NONE and assigns it base offset 0",
            ServerCheck::FetchBatchIntegrity =>
                "a fetch returns the produced record batch byte-identical from the magic byte onward (crc included) — only base_offset and partition_leader_epoch, which sit outside the crc, may be rewritten",
            ServerCheck::ProduceTopicId =>
                "accepts a topic-id-addressed produce (v13+) to a fresh topic, the id learned from CreateTopics, with error NONE",
            ServerCheck::FetchTopicId =>
                "serves a topic-id-addressed fetch (v13+), echoing the requested topic id and returning the produced batch intact",
            ServerCheck::ListOffsetsEarliestLatest =>
                "answers timestamp -2 with the log start and -1 with the log end, so that the span between them is exactly the records produced",
            ServerCheck::FindCoordinatorGroup =>
                "names a reachable coordinator for a group key, answering in the shape the negotiated version defines (v4+ echoes each requested key in `coordinators`)",
            ServerCheck::OffsetsCommitFetchRoundtrip =>
                "returns from OffsetFetch exactly the offset OffsetCommit was given for that group, topic and partition",
            ServerCheck::OffsetsUnsetIsSentinel =>
                "reports a partition a group never committed as offset -1 with no error, rather than as 0 or as a failure",
            ServerCheck::FetchOffsetOutOfRange =>
                "answers a fetch past the high watermark with OFFSET_OUT_OF_RANGE rather than with an empty batch set",
            ServerCheck::MetadataUnknownTopic =>
                "names a topic it does not have in the response, carrying UNKNOWN_TOPIC_OR_PARTITION, rather than omitting it",
            ServerCheck::CreateTopicsDuplicate =>
                "refuses a second CreateTopics for an existing topic with TOPIC_ALREADY_EXISTS",
            ServerCheck::CreateTopicsValidateOnly =>
                "a validate_only request reports what would happen without creating the topic",
            ServerCheck::GroupsMemberIdRequired =>
                "refuses a JoinGroup (v4+) that carries no member id, answering MEMBER_ID_REQUIRED with an id to rejoin with",
            ServerCheck::GroupsAssignmentRoundTrips =>
                "hands a member the assignment bytes its leader supplied, unexamined and unchanged",
            ServerCheck::GroupsStaleGenerationFenced =>
                "refuses a Heartbeat carrying a generation the group has moved past, with ILLEGAL_GENERATION",
            ServerCheck::ConsumerGroupEpochAdvances =>
                "admits a KIP-848 member that names itself at epoch 0, answering with a non-zero epoch and a usable heartbeat interval",
            ServerCheck::ConsumerGroupAssignsSubscription =>
                "assigns the partitions of a subscribed topic, addressed by topic id",
            ServerCheck::ConsumerGroupOmittedSubscription =>
                "treats a heartbeat that omits subscribed_topic_names as saying nothing about the subscription, not as unsubscribing",
            ServerCheck::ConsumerGroupFencedEpoch =>
                "refuses a heartbeat carrying an epoch the member has moved past, with FENCED_MEMBER_EPOCH",
            ServerCheck::SaslAuthenticateRequiresHandshake =>
                "refuses a SASL token on a connection that negotiated no mechanism, as a state error rather than as bad credentials",
            ServerCheck::SaslRefusalNamesMechanisms =>
                "answers an unsupported mechanism with UNSUPPORTED_SASL_MECHANISM and the mechanisms it does support, so a client has something to fall back to",
            ServerCheck::ScramNonceExtendsClient =>
                "answers a SCRAM client-first with a nonce that begins with the client's own, rather than replacing it",
            ServerCheck::ScramIterationFloor =>
                "states a salt and an iteration count at or above RFC 7677's floor of 4096 for SCRAM-SHA-256",
            ServerCheck::ScramServerProvesItself =>
                "completes a SCRAM exchange with a server signature that verifies, proving it holds the account's key material",
            ServerCheck::ProduceAcksZeroIsSilent =>
                "sends no response at all to an acks=0 produce, rather than a frame the client has no correlation id outstanding for",
            ServerCheck::MetadataTopicIdIsStable =>
                "reports the same topic id for a topic that has not gone away, so id-addressed requests keep working",
            ServerCheck::ProduceCompressedPassthrough =>
                "returns a gzip-compressed batch exactly as it was produced, rather than recompressing it and rewriting bytes the producer's crc covered",
            ServerCheck::FetchLongPollContract =>
                "waits out max_wait_ms for a fetch it cannot yet satisfy, and answers one it can without spending the wait",
            ServerCheck::MetadataLeaderIsAKnownBroker =>
                "names every partition leader in the same response's broker list, so a client has somewhere to route to",
            ServerCheck::DescribeGroupsReportsMembers =>
                "reports the members a live group has, rather than describing it as empty",
            ServerCheck::OffsetsMetadataRoundTrips =>
                "returns the metadata string a commit carried exactly as it was given, rather than dropping or altering it beside an offset that reads back fine",
            ServerCheck::CreateTopicsImpossibleReplication =>
                "refuses a replication factor the cluster cannot satisfy rather than creating the topic with fewer replicas than were asked for",
            ServerCheck::GroupsLeaveUnregistersTheMember =>
                "stops accepting heartbeats from a member that has left, so its partitions are reassigned instead of being held by a member that is gone",
            ServerCheck::ListOffsetsByTimestamp =>
                "answers a timestamp with the first offset at or after it, and a timestamp past every record with -1 rather than with either end of the log",
            ServerCheck::DeleteTopicsRemovesTheTopic =>
                "a topic it reports deleted stops existing, rather than being acknowledged and left in place",
            ServerCheck::ProduceIdempotentRetryIsDeduped =>
                "stores one copy of a batch sent twice under the same producer id, epoch and sequence, however it answers the second one",
            ServerCheck::ProduceSequenceGapIsRefused =>
                "refuses a stamped batch whose sequence skips past what it last accepted, with OUT_OF_ORDER_SEQUENCE_NUMBER rather than by silently accepting the gap",
            ServerCheck::TxnInitBumpsTheEpoch =>
                "hands a producer re-taking a transactional id a higher epoch than its predecessor, which is the only thing that tells the two apart",
            ServerCheck::TxnStaleEpochIsFenced =>
                "refuses a transaction request carrying a superseded producer epoch, rather than letting a fenced producer write into its successor's transaction",
            ServerCheck::TxnUnannouncedWriteStaysInTheTransaction =>
                "either refuses a transactional produce to a partition the client never announced, or brings that partition into the transaction itself — never writes the records outside it",
            ServerCheck::TxnOpenTransactionHoldsTheStableOffset =>
                "keeps the last stable offset below the high watermark while a transaction is open, so read_committed consumers are not shown records that may yet be aborted",
            ServerCheck::TxnFencedProducerCannotProduce =>
                "refuses a transactional produce carrying a superseded epoch at the partition leader, not only at the coordinator",
            ServerCheck::TxnCommitIsVisibleToReaders =>
                "moves the stable offset past a committed transaction's records and does not name it in the aborted list, so read_committed consumers can see it",
            ServerCheck::TxnOffsetsWaitForTheCommit =>
                "holds offsets committed inside a transaction back until it commits, so the input is never marked processed while the output can still be thrown away",
            ServerCheck::TxnAbortIsReportedToReaders =>
                "names the aborted transaction in a read_committed fetch over its records, which is the only way a client can tell they were thrown away",
            ServerCheck::ClusterBrokersAgreeOnTheLeader =>
                "every broker names the same leader for a partition, so a                       client that refreshes metadata against a different broker                       than last time is not sent somewhere else",
            ServerCheck::ClusterBrokersAgreeOnTheCoordinator =>
                "every broker names the same coordinator for a group, so a                       group does not end up with as many coordinators as it has                       bootstrap addresses",
            ServerCheck::ClusterReplicasSpanBrokers =>
                "places a topic asked for n replicas on n distinct brokers,                       with the leader among them and the in-sync set drawn from                       them",
            ServerCheck::ClusterWritesGoToTheLeader =>
                "refuses a produce to a broker that does not lead the                       partition, rather than appending to a log the leader knows                       nothing about",
            ServerCheck::ClusterGroupOffsetsNeedTheCoordinator =>
                "refuses an offset commit on a broker that does not                       coordinate the group, rather than storing it where the                       coordinator will never see it",
            ServerCheck::ClusterLeadershipMovesWhenABrokerStops =>
                "moves a partition's leadership to one of its replicas when                       the leader stops, and the new leader accepts writes —                       otherwise the replicas were decoration",
            ServerCheck::ClusterCommittedOffsetsOutliveTheCoordinator =>
                "gives the group a new coordinator when its own stops, still                       reporting the offset it acknowledged — a commit is only as                       durable as what answers after the failure",
            ServerCheck::VersionsAdvertisedAreSpeakable =>
                "answers every version of every api it advertises, in the shape that version specifies — an advertised range the server cannot serve sends clients to a version that fails",
        }
    }

    /// How far the check gets on what the harness has reported.
    pub open spec fn spec_flow(self, ctx: ServerCtx, tape: Seq<Event>) -> FlowView<VerdictView> {
        match self {
            ServerCheck::V0Basic => server_basic::spec_v0_basic(ctx, tape),
            ServerCheck::CorrelationEcho => server_basic::spec_correlation_echo(ctx, tape),
            ServerCheck::FlexibleV3 => server_basic::spec_flexible_v3(ctx, tape),
            ServerCheck::UnsupportedVersion => server_basic::spec_unsupported_version(ctx, tape),
            ServerCheck::MetadataBasic => server_basic::spec_metadata_basic(ctx, tape),
            ServerCheck::MetadataFlexibleHeader => {
                server_basic::spec_metadata_flexible_header(ctx, tape)
            },
            ServerCheck::ProduceBasic => server_log::spec_produce_basic(ctx, tape),
            ServerCheck::FetchBatchIntegrity => server_log::spec_fetch_batch_integrity(ctx, tape),
            ServerCheck::ProduceTopicId => server_log::spec_produce_topic_id(ctx, tape),
            ServerCheck::FetchTopicId => server_log::spec_fetch_topic_id(ctx, tape),
            ServerCheck::ListOffsetsEarliestLatest => {
                server_log::spec_list_offsets_earliest_latest(ctx, tape)
            },
            ServerCheck::FindCoordinatorGroup => {
                server_groups::spec_find_coordinator_group(ctx, tape)
            },
            ServerCheck::OffsetsCommitFetchRoundtrip => {
                server_groups::spec_offsets_commit_fetch_roundtrip(ctx, tape)
            },
            ServerCheck::OffsetsUnsetIsSentinel => {
                server_groups::spec_offsets_unset_is_sentinel(ctx, tape)
            },
            ServerCheck::FetchOffsetOutOfRange => {
                server_log::spec_fetch_offset_out_of_range(ctx, tape)
            },
            ServerCheck::MetadataUnknownTopic => {
                server_basic::spec_metadata_unknown_topic(ctx, tape)
            },
            ServerCheck::CreateTopicsDuplicate => {
                server_basic::spec_create_topics_duplicate(ctx, tape)
            },
            ServerCheck::CreateTopicsValidateOnly => {
                server_basic::spec_create_topics_validate_only(ctx, tape)
            },
            ServerCheck::GroupsMemberIdRequired => {
                server_groups::spec_groups_member_id_required(ctx, tape)
            },
            ServerCheck::GroupsAssignmentRoundTrips => {
                server_groups::spec_groups_assignment_round_trips(ctx, tape)
            },
            ServerCheck::GroupsStaleGenerationFenced => {
                server_groups::spec_groups_stale_generation_fenced(ctx, tape)
            },
            ServerCheck::ConsumerGroupEpochAdvances => {
                server_groups::spec_consumer_group_epoch_advances(ctx, tape)
            },
            ServerCheck::ConsumerGroupAssignsSubscription => {
                server_groups::spec_consumer_group_assigns_subscription(ctx, tape)
            },
            ServerCheck::ConsumerGroupOmittedSubscription => {
                server_groups::spec_consumer_group_omitted_subscription(ctx, tape)
            },
            ServerCheck::ConsumerGroupFencedEpoch => {
                server_groups::spec_consumer_group_fenced_epoch(ctx, tape)
            },
            ServerCheck::SaslAuthenticateRequiresHandshake => {
                server_sasl::spec_sasl_authenticate_requires_handshake(ctx, tape)
            },
            ServerCheck::SaslRefusalNamesMechanisms => {
                server_sasl::spec_sasl_refusal_names_mechanisms(ctx, tape)
            },
            ServerCheck::ScramNonceExtendsClient => {
                server_sasl::spec_scram_nonce_extends_client(ctx, tape)
            },
            ServerCheck::ScramIterationFloor => server_sasl::spec_scram_iteration_floor(ctx, tape),
            ServerCheck::ScramServerProvesItself => {
                server_sasl::spec_scram_server_proves_itself(ctx, tape)
            },
            ServerCheck::ProduceAcksZeroIsSilent => {
                server_log::spec_produce_acks_zero_is_silent(ctx, tape)
            },
            ServerCheck::MetadataTopicIdIsStable => {
                server_basic::spec_metadata_topic_id_is_stable(ctx, tape)
            },
            ServerCheck::ProduceCompressedPassthrough => {
                server_log::spec_produce_compressed_passthrough(ctx, tape)
            },
            ServerCheck::FetchLongPollContract => {
                server_log::spec_fetch_long_poll_contract(ctx, tape)
            },
            ServerCheck::MetadataLeaderIsAKnownBroker => {
                server_basic::spec_metadata_leader_is_a_known_broker(ctx, tape)
            },
            ServerCheck::DescribeGroupsReportsMembers => {
                server_groups::spec_describe_groups_reports_members(ctx, tape)
            },
            ServerCheck::OffsetsMetadataRoundTrips => {
                server_groups::spec_offsets_metadata_round_trips(ctx, tape)
            },
            ServerCheck::CreateTopicsImpossibleReplication => {
                server_basic::spec_create_topics_impossible_replication(ctx, tape)
            },
            ServerCheck::GroupsLeaveUnregistersTheMember => {
                server_groups::spec_groups_leave_unregisters_the_member(ctx, tape)
            },
            ServerCheck::ListOffsetsByTimestamp => {
                server_log::spec_list_offsets_by_timestamp(ctx, tape)
            },
            ServerCheck::DeleteTopicsRemovesTheTopic => {
                server_basic::spec_delete_topics_removes_the_topic(ctx, tape)
            },
            ServerCheck::ProduceIdempotentRetryIsDeduped => {
                server_txn::spec_produce_idempotent_retry_is_deduped(ctx, tape)
            },
            ServerCheck::ProduceSequenceGapIsRefused => {
                server_txn::spec_produce_sequence_gap_is_refused(ctx, tape)
            },
            ServerCheck::TxnInitBumpsTheEpoch => {
                server_txn::spec_txn_init_bumps_the_epoch(ctx, tape)
            },
            ServerCheck::TxnStaleEpochIsFenced => {
                server_txn::spec_txn_stale_epoch_is_fenced(ctx, tape)
            },
            ServerCheck::TxnUnannouncedWriteStaysInTheTransaction => {
                server_txn::spec_txn_unannounced_write_stays_in_the_transaction(ctx, tape)
            },
            ServerCheck::TxnOpenTransactionHoldsTheStableOffset => {
                server_txn::spec_txn_open_transaction_holds_the_stable_offset(ctx, tape)
            },
            ServerCheck::TxnFencedProducerCannotProduce => {
                server_txn::spec_txn_fenced_producer_cannot_produce(ctx, tape)
            },
            ServerCheck::TxnCommitIsVisibleToReaders => {
                server_txn::spec_txn_commit_is_visible_to_readers(ctx, tape)
            },
            ServerCheck::TxnOffsetsWaitForTheCommit => {
                server_txn::spec_txn_offsets_wait_for_the_commit(ctx, tape)
            },
            ServerCheck::TxnAbortIsReportedToReaders => {
                server_txn::spec_txn_abort_is_reported_to_readers(ctx, tape)
            },
            ServerCheck::ClusterBrokersAgreeOnTheLeader => {
                server_cluster::spec_cluster_brokers_agree_on_the_leader(ctx, tape)
            },
            ServerCheck::ClusterBrokersAgreeOnTheCoordinator => {
                server_cluster::spec_cluster_brokers_agree_on_the_coordinator(ctx, tape)
            },
            ServerCheck::ClusterReplicasSpanBrokers => {
                server_cluster::spec_cluster_replicas_span_brokers(ctx, tape)
            },
            ServerCheck::ClusterWritesGoToTheLeader => {
                server_cluster::spec_cluster_writes_go_to_the_leader(ctx, tape)
            },
            ServerCheck::ClusterGroupOffsetsNeedTheCoordinator => {
                server_cluster::spec_cluster_group_offsets_need_the_coordinator(ctx, tape)
            },
            ServerCheck::ClusterLeadershipMovesWhenABrokerStops => {
                server_cluster::spec_cluster_leadership_moves_when_a_broker_stops(ctx, tape)
            },
            ServerCheck::ClusterCommittedOffsetsOutliveTheCoordinator => {
                server_cluster::spec_cluster_committed_offsets_outlive_the_coordinator(ctx, tape)
            },
            ServerCheck::VersionsAdvertisedAreSpeakable => {
                server_versions::spec_versions_advertised_are_speakable(ctx, tape)
            },
        }
    }

    /// Carries the check as far as the tape goes: a verdict, or the next
    /// thing to do.
    pub fn step(&self, ctx: &ServerCtx, tape: &Vec<Event>) -> (r: Step)
        ensures
            r@ == tape::spec_conclude(self.spec_flow(*ctx, tape@)),
    {
        conclude(
            match self {
                ServerCheck::V0Basic => server_basic::v0_basic(ctx, tape),
                ServerCheck::CorrelationEcho => server_basic::correlation_echo(ctx, tape),
                ServerCheck::FlexibleV3 => server_basic::flexible_v3(ctx, tape),
                ServerCheck::UnsupportedVersion => server_basic::unsupported_version(ctx, tape),
                ServerCheck::MetadataBasic => server_basic::metadata_basic(ctx, tape),
                ServerCheck::MetadataFlexibleHeader => {
                    server_basic::metadata_flexible_header(ctx, tape)
                },
                ServerCheck::ProduceBasic => server_log::produce_basic(ctx, tape),
                ServerCheck::FetchBatchIntegrity => server_log::fetch_batch_integrity(ctx, tape),
                ServerCheck::ProduceTopicId => server_log::produce_topic_id(ctx, tape),
                ServerCheck::FetchTopicId => server_log::fetch_topic_id(ctx, tape),
                ServerCheck::ListOffsetsEarliestLatest => {
                    server_log::list_offsets_earliest_latest(ctx, tape)
                },
                ServerCheck::FindCoordinatorGroup => {
                    server_groups::find_coordinator_group(ctx, tape)
                },
                ServerCheck::OffsetsCommitFetchRoundtrip => {
                    server_groups::offsets_commit_fetch_roundtrip(ctx, tape)
                },
                ServerCheck::OffsetsUnsetIsSentinel => {
                    server_groups::offsets_unset_is_sentinel(ctx, tape)
                },
                ServerCheck::FetchOffsetOutOfRange => {
                    server_log::fetch_offset_out_of_range(ctx, tape)
                },
                ServerCheck::MetadataUnknownTopic => {
                    server_basic::metadata_unknown_topic(ctx, tape)
                },
                ServerCheck::CreateTopicsDuplicate => {
                    server_basic::create_topics_duplicate(ctx, tape)
                },
                ServerCheck::CreateTopicsValidateOnly => {
                    server_basic::create_topics_validate_only(ctx, tape)
                },
                ServerCheck::GroupsMemberIdRequired => {
                    server_groups::groups_member_id_required(ctx, tape)
                },
                ServerCheck::GroupsAssignmentRoundTrips => {
                    server_groups::groups_assignment_round_trips(ctx, tape)
                },
                ServerCheck::GroupsStaleGenerationFenced => {
                    server_groups::groups_stale_generation_fenced(ctx, tape)
                },
                ServerCheck::ConsumerGroupEpochAdvances => {
                    server_groups::consumer_group_epoch_advances(ctx, tape)
                },
                ServerCheck::ConsumerGroupAssignsSubscription => {
                    server_groups::consumer_group_assigns_subscription(ctx, tape)
                },
                ServerCheck::ConsumerGroupOmittedSubscription => {
                    server_groups::consumer_group_omitted_subscription(ctx, tape)
                },
                ServerCheck::ConsumerGroupFencedEpoch => {
                    server_groups::consumer_group_fenced_epoch(ctx, tape)
                },
                ServerCheck::SaslAuthenticateRequiresHandshake => {
                    server_sasl::sasl_authenticate_requires_handshake(ctx, tape)
                },
                ServerCheck::SaslRefusalNamesMechanisms => {
                    server_sasl::sasl_refusal_names_mechanisms(ctx, tape)
                },
                ServerCheck::ScramNonceExtendsClient => {
                    server_sasl::scram_nonce_extends_client(ctx, tape)
                },
                ServerCheck::ScramIterationFloor => server_sasl::scram_iteration_floor(ctx, tape),
                ServerCheck::ScramServerProvesItself => {
                    server_sasl::scram_server_proves_itself(ctx, tape)
                },
                ServerCheck::ProduceAcksZeroIsSilent => {
                    server_log::produce_acks_zero_is_silent(ctx, tape)
                },
                ServerCheck::MetadataTopicIdIsStable => {
                    server_basic::metadata_topic_id_is_stable(ctx, tape)
                },
                ServerCheck::ProduceCompressedPassthrough => {
                    server_log::produce_compressed_passthrough(ctx, tape)
                },
                ServerCheck::FetchLongPollContract => {
                    server_log::fetch_long_poll_contract(ctx, tape)
                },
                ServerCheck::MetadataLeaderIsAKnownBroker => {
                    server_basic::metadata_leader_is_a_known_broker(ctx, tape)
                },
                ServerCheck::DescribeGroupsReportsMembers => {
                    server_groups::describe_groups_reports_members(ctx, tape)
                },
                ServerCheck::OffsetsMetadataRoundTrips => {
                    server_groups::offsets_metadata_round_trips(ctx, tape)
                },
                ServerCheck::CreateTopicsImpossibleReplication => {
                    server_basic::create_topics_impossible_replication(ctx, tape)
                },
                ServerCheck::GroupsLeaveUnregistersTheMember => {
                    server_groups::groups_leave_unregisters_the_member(ctx, tape)
                },
                ServerCheck::ListOffsetsByTimestamp => {
                    server_log::list_offsets_by_timestamp(ctx, tape)
                },
                ServerCheck::DeleteTopicsRemovesTheTopic => {
                    server_basic::delete_topics_removes_the_topic(ctx, tape)
                },
                ServerCheck::ProduceIdempotentRetryIsDeduped => {
                    server_txn::produce_idempotent_retry_is_deduped(ctx, tape)
                },
                ServerCheck::ProduceSequenceGapIsRefused => {
                    server_txn::produce_sequence_gap_is_refused(ctx, tape)
                },
                ServerCheck::TxnInitBumpsTheEpoch => {
                    server_txn::txn_init_bumps_the_epoch(ctx, tape)
                },
                ServerCheck::TxnStaleEpochIsFenced => {
                    server_txn::txn_stale_epoch_is_fenced(ctx, tape)
                },
                ServerCheck::TxnUnannouncedWriteStaysInTheTransaction => {
                    server_txn::txn_unannounced_write_stays_in_the_transaction(ctx, tape)
                },
                ServerCheck::TxnOpenTransactionHoldsTheStableOffset => {
                    server_txn::txn_open_transaction_holds_the_stable_offset(ctx, tape)
                },
                ServerCheck::TxnFencedProducerCannotProduce => {
                    server_txn::txn_fenced_producer_cannot_produce(ctx, tape)
                },
                ServerCheck::TxnCommitIsVisibleToReaders => {
                    server_txn::txn_commit_is_visible_to_readers(ctx, tape)
                },
                ServerCheck::TxnOffsetsWaitForTheCommit => {
                    server_txn::txn_offsets_wait_for_the_commit(ctx, tape)
                },
                ServerCheck::TxnAbortIsReportedToReaders => {
                    server_txn::txn_abort_is_reported_to_readers(ctx, tape)
                },
                ServerCheck::ClusterBrokersAgreeOnTheLeader => {
                    server_cluster::cluster_brokers_agree_on_the_leader(ctx, tape)
                },
                ServerCheck::ClusterBrokersAgreeOnTheCoordinator => {
                    server_cluster::cluster_brokers_agree_on_the_coordinator(ctx, tape)
                },
                ServerCheck::ClusterReplicasSpanBrokers => {
                    server_cluster::cluster_replicas_span_brokers(ctx, tape)
                },
                ServerCheck::ClusterWritesGoToTheLeader => {
                    server_cluster::cluster_writes_go_to_the_leader(ctx, tape)
                },
                ServerCheck::ClusterGroupOffsetsNeedTheCoordinator => {
                    server_cluster::cluster_group_offsets_need_the_coordinator(ctx, tape)
                },
                ServerCheck::ClusterLeadershipMovesWhenABrokerStops => {
                    server_cluster::cluster_leadership_moves_when_a_broker_stops(ctx, tape)
                },
                ServerCheck::ClusterCommittedOffsetsOutliveTheCoordinator => {
                    server_cluster::cluster_committed_offsets_outlive_the_coordinator(ctx, tape)
                },
                ServerCheck::VersionsAdvertisedAreSpeakable => {
                    server_versions::versions_advertised_are_speakable(ctx, tape)
                },
            },
        )
    }

    /// A number that tells the checks' names apart: their length, their
    /// first character and their thirteenth, weighted.
    pub open spec fn mark(self) -> int {
        match self {
            ServerCheck::V0Basic => 1343,
            ServerCheck::CorrelationEcho => 1351,
            ServerCheck::FlexibleV3 => 1346,
            ServerCheck::UnsupportedVersion => 1360,
            ServerCheck::MetadataBasic => 2752,
            ServerCheck::MetadataFlexibleHeader => 3131,
            ServerCheck::ProduceBasic => 2613,
            ServerCheck::FetchBatchIntegrity => 2745,
            ServerCheck::ProduceTopicId => 2616,
            ServerCheck::FetchTopicId => 2738,
            ServerCheck::ListOffsetsEarliestLatest => 1372,
            ServerCheck::FindCoordinatorGroup => 2554,
            ServerCheck::OffsetsCommitFetchRoundtrip => 2772,
            ServerCheck::OffsetsUnsetIsSentinel => 3031,
            ServerCheck::FetchOffsetOutOfRange => 1309,
            ServerCheck::MetadataUnknownTopic => 2880,
            ServerCheck::CreateTopicsDuplicate => 2981,
            ServerCheck::CreateTopicsValidateOnly => 2985,
            ServerCheck::GroupsMemberIdRequired => 2967,
            ServerCheck::GroupsAssignmentRoundTrips => 2875,
            ServerCheck::GroupsStaleGenerationFenced => 1316,
            ServerCheck::ConsumerGroupEpochAdvances => 3035,
            ServerCheck::ConsumerGroupAssignsSubscription => 3041,
            ServerCheck::ConsumerGroupOmittedSubscription => 3054,
            ServerCheck::ConsumerGroupFencedEpoch => 3033,
            ServerCheck::SaslAuthenticateRequiresHandshake => 2786,
            ServerCheck::SaslRefusalNamesMechanisms => 1339,
            ServerCheck::ScramNonceExtendsClient => 2925,
            ServerCheck::ScramIterationFloor => 3040,
            ServerCheck::ScramServerProvesItself => 2685,
            ServerCheck::ProduceAcksZeroIsSilent => 1331,
            ServerCheck::MetadataTopicIdIsStable => 2765,
            ServerCheck::ProduceCompressedPassthrough => 2996,
            ServerCheck::FetchLongPollContract => 2892,
            ServerCheck::MetadataLeaderIsAKnownBroker => 2651,
            ServerCheck::DescribeGroupsReportsMembers => 2583,
            ServerCheck::OffsetsMetadataRoundTrips => 2650,
            ServerCheck::CreateTopicsImpossibleReplication => 2994,
            ServerCheck::GroupsLeaveUnregistersTheMember => 1321,
            ServerCheck::ListOffsetsByTimestamp => 1369,
            ServerCheck::DeleteTopicsRemovesTheTopic => 1311,
            ServerCheck::ProduceIdempotentRetryIsDeduped => 2947,
            ServerCheck::ProduceSequenceGapIsRefused => 2679,
            ServerCheck::TxnInitBumpsTheEpoch => 2944,
            ServerCheck::TxnStaleEpochIsFenced => 2921,
            ServerCheck::TxnUnannouncedWriteStaysInTheTransaction => 2654,
            ServerCheck::TxnOpenTransactionHoldsTheStableOffset => 2916,
            ServerCheck::TxnFencedProducerCannotProduce => 3002,
            ServerCheck::TxnCommitIsVisibleToReaders => 3024,
            ServerCheck::TxnOffsetsWaitForTheCommit => 3119,
            ServerCheck::TxnAbortIsReportedToReaders => 1344,
            ServerCheck::ClusterBrokersAgreeOnTheLeader => 2657,
            ServerCheck::ClusterBrokersAgreeOnTheCoordinator => 2662,
            ServerCheck::ClusterReplicasSpanBrokers => 2747,
            ServerCheck::ClusterWritesGoToTheLeader => 2653,
            ServerCheck::ClusterGroupOffsetsNeedTheCoordinator => 2928,
            ServerCheck::ClusterLeadershipMovesWhenABrokerStops => 2666,
            ServerCheck::ClusterCommittedOffsetsOutliveTheCoordinator => 2767,
            ServerCheck::VersionsAdvertisedAreSpeakable => 2702,
        }
    }
}

/// The mark of a name.
pub open spec fn name_mark(name: Seq<char>) -> int {
    name.len() + 2 * (name[0] as int) + 24 * (name[12] as int)
}

/// A check's mark is its name's.
pub proof fn lemma_server_mark(check: ServerCheck)
    ensures
        name_mark(check.spec_id()) == check.mark(),
{
    match check {
        ServerCheck::V0Basic => {
            reveal_strlit("api-versions/v0-basic");
        },
        ServerCheck::CorrelationEcho => {
            reveal_strlit("api-versions/correlation-echo");
        },
        ServerCheck::FlexibleV3 => {
            reveal_strlit("api-versions/flexible-v3");
        },
        ServerCheck::UnsupportedVersion => {
            reveal_strlit("api-versions/unsupported-version-error");
        },
        ServerCheck::MetadataBasic => {
            reveal_strlit("metadata/basic");
        },
        ServerCheck::MetadataFlexibleHeader => {
            reveal_strlit("metadata/flexible-response-header");
        },
        ServerCheck::ProduceBasic => {
            reveal_strlit("produce/basic");
        },
        ServerCheck::FetchBatchIntegrity => {
            reveal_strlit("fetch/batch-integrity");
        },
        ServerCheck::ProduceTopicId => {
            reveal_strlit("produce/topic-id");
        },
        ServerCheck::FetchTopicId => {
            reveal_strlit("fetch/topic-id");
        },
        ServerCheck::ListOffsetsEarliestLatest => {
            reveal_strlit("list-offsets/earliest-latest");
        },
        ServerCheck::FindCoordinatorGroup => {
            reveal_strlit("find-coordinator/group");
        },
        ServerCheck::OffsetsCommitFetchRoundtrip => {
            reveal_strlit("offsets/commit-fetch-roundtrip");
        },
        ServerCheck::OffsetsUnsetIsSentinel => {
            reveal_strlit("offsets/unset-is-sentinel");
        },
        ServerCheck::FetchOffsetOutOfRange => {
            reveal_strlit("fetch/offset-out-of-range");
        },
        ServerCheck::MetadataUnknownTopic => {
            reveal_strlit("metadata/unknown-topic");
        },
        ServerCheck::CreateTopicsDuplicate => {
            reveal_strlit("create-topics/duplicate");
        },
        ServerCheck::CreateTopicsValidateOnly => {
            reveal_strlit("create-topics/validate-only");
        },
        ServerCheck::GroupsMemberIdRequired => {
            reveal_strlit("groups/member-id-required");
        },
        ServerCheck::GroupsAssignmentRoundTrips => {
            reveal_strlit("groups/assignment-round-trips");
        },
        ServerCheck::GroupsStaleGenerationFenced => {
            reveal_strlit("groups/stale-generation-fenced");
        },
        ServerCheck::ConsumerGroupEpochAdvances => {
            reveal_strlit("consumer-group/epoch-advances");
        },
        ServerCheck::ConsumerGroupAssignsSubscription => {
            reveal_strlit("consumer-group/assigns-subscription");
        },
        ServerCheck::ConsumerGroupOmittedSubscription => {
            reveal_strlit("consumer-group/omitted-subscription-is-unchanged");
        },
        ServerCheck::ConsumerGroupFencedEpoch => {
            reveal_strlit("consumer-group/fenced-epoch");
        },
        ServerCheck::SaslAuthenticateRequiresHandshake => {
            reveal_strlit("sasl/authenticate-requires-handshake");
        },
        ServerCheck::SaslRefusalNamesMechanisms => {
            reveal_strlit("sasl/refusal-names-mechanisms");
        },
        ServerCheck::ScramNonceExtendsClient => {
            reveal_strlit("sasl/scram-nonce-extends-client");
        },
        ServerCheck::ScramIterationFloor => {
            reveal_strlit("sasl/scram-iteration-floor");
        },
        ServerCheck::ScramServerProvesItself => {
            reveal_strlit("sasl/scram-server-proves-itself");
        },
        ServerCheck::ProduceAcksZeroIsSilent => {
            reveal_strlit("produce/acks-zero-is-silent");
        },
        ServerCheck::MetadataTopicIdIsStable => {
            reveal_strlit("metadata/topic-id-is-stable");
        },
        ServerCheck::ProduceCompressedPassthrough => {
            reveal_strlit("produce/compressed-batch-passthrough");
        },
        ServerCheck::FetchLongPollContract => {
            reveal_strlit("fetch/long-poll-contract");
        },
        ServerCheck::MetadataLeaderIsAKnownBroker => {
            reveal_strlit("metadata/leader-is-a-known-broker");
        },
        ServerCheck::DescribeGroupsReportsMembers => {
            reveal_strlit("admin/describe-groups-reports-members");
        },
        ServerCheck::OffsetsMetadataRoundTrips => {
            reveal_strlit("offsets/metadata-round-trips");
        },
        ServerCheck::CreateTopicsImpossibleReplication => {
            reveal_strlit("create-topics/impossible-replication");
        },
        ServerCheck::GroupsLeaveUnregistersTheMember => {
            reveal_strlit("groups/leave-unregisters-the-member");
        },
        ServerCheck::ListOffsetsByTimestamp => {
            reveal_strlit("list-offsets/by-timestamp");
        },
        ServerCheck::DeleteTopicsRemovesTheTopic => {
            reveal_strlit("admin/delete-topics-removes-the-topic");
        },
        ServerCheck::ProduceIdempotentRetryIsDeduped => {
            reveal_strlit("produce/idempotent-retry-is-deduped");
        },
        ServerCheck::ProduceSequenceGapIsRefused => {
            reveal_strlit("produce/sequence-gap-is-refused");
        },
        ServerCheck::TxnInitBumpsTheEpoch => {
            reveal_strlit("txn/init-bumps-the-epoch");
        },
        ServerCheck::TxnStaleEpochIsFenced => {
            reveal_strlit("txn/stale-epoch-is-fenced");
        },
        ServerCheck::TxnUnannouncedWriteStaysInTheTransaction => {
            reveal_strlit("txn/unannounced-write-stays-in-the-transaction");
        },
        ServerCheck::TxnOpenTransactionHoldsTheStableOffset => {
            reveal_strlit("txn/open-transaction-holds-the-stable-offset");
        },
        ServerCheck::TxnFencedProducerCannotProduce => {
            reveal_strlit("txn/fenced-producer-cannot-produce");
        },
        ServerCheck::TxnCommitIsVisibleToReaders => {
            reveal_strlit("txn/commit-is-visible-to-readers");
        },
        ServerCheck::TxnOffsetsWaitForTheCommit => {
            reveal_strlit("txn/offsets-wait-for-the-commit");
        },
        ServerCheck::TxnAbortIsReportedToReaders => {
            reveal_strlit("txn/abort-is-reported-to-readers");
        },
        ServerCheck::ClusterBrokersAgreeOnTheLeader => {
            reveal_strlit("cluster/brokers-agree-on-the-leader");
        },
        ServerCheck::ClusterBrokersAgreeOnTheCoordinator => {
            reveal_strlit("cluster/brokers-agree-on-the-coordinator");
        },
        ServerCheck::ClusterReplicasSpanBrokers => {
            reveal_strlit("cluster/replicas-span-brokers");
        },
        ServerCheck::ClusterWritesGoToTheLeader => {
            reveal_strlit("cluster/writes-go-to-the-leader");
        },
        ServerCheck::ClusterGroupOffsetsNeedTheCoordinator => {
            reveal_strlit("cluster/group-offsets-need-the-coordinator");
        },
        ServerCheck::ClusterLeadershipMovesWhenABrokerStops => {
            reveal_strlit("cluster/leadership-moves-when-a-broker-stops");
        },
        ServerCheck::ClusterCommittedOffsetsOutliveTheCoordinator => {
            reveal_strlit("cluster/committed-offsets-outlive-the-coordinator");
        },
        ServerCheck::VersionsAdvertisedAreSpeakable => {
            reveal_strlit("versions/advertised-versions-are-speakable");
        },
    }
}

/// No two server-side checks go by the same name.
pub proof fn law_server_ids_differ(a: ServerCheck, b: ServerCheck)
    ensures
        a.spec_id() == b.spec_id() ==> a == b,
{
    lemma_server_mark(a);
    lemma_server_mark(b);
}

/// The run order names every server-side check, and each of them once.
pub proof fn law_server_checks_complete(check: ServerCheck)
    ensures
        exists|i: int|
            0 <= i < spec_server_checks().len() && #[trigger] spec_server_checks()[i] == check,
        forall|i: int, j: int|
            0 <= i < j < spec_server_checks().len() ==> spec_server_checks()[i]
                != spec_server_checks()[j],
{
    match check {
        ServerCheck::V0Basic => {
            assert(spec_server_checks()[0] == check);
        },
        ServerCheck::CorrelationEcho => {
            assert(spec_server_checks()[1] == check);
        },
        ServerCheck::FlexibleV3 => {
            assert(spec_server_checks()[2] == check);
        },
        ServerCheck::UnsupportedVersion => {
            assert(spec_server_checks()[3] == check);
        },
        ServerCheck::MetadataBasic => {
            assert(spec_server_checks()[4] == check);
        },
        ServerCheck::MetadataFlexibleHeader => {
            assert(spec_server_checks()[5] == check);
        },
        ServerCheck::ProduceBasic => {
            assert(spec_server_checks()[6] == check);
        },
        ServerCheck::FetchBatchIntegrity => {
            assert(spec_server_checks()[7] == check);
        },
        ServerCheck::ProduceTopicId => {
            assert(spec_server_checks()[8] == check);
        },
        ServerCheck::FetchTopicId => {
            assert(spec_server_checks()[9] == check);
        },
        ServerCheck::ListOffsetsEarliestLatest => {
            assert(spec_server_checks()[10] == check);
        },
        ServerCheck::FindCoordinatorGroup => {
            assert(spec_server_checks()[11] == check);
        },
        ServerCheck::OffsetsCommitFetchRoundtrip => {
            assert(spec_server_checks()[12] == check);
        },
        ServerCheck::OffsetsUnsetIsSentinel => {
            assert(spec_server_checks()[13] == check);
        },
        ServerCheck::FetchOffsetOutOfRange => {
            assert(spec_server_checks()[14] == check);
        },
        ServerCheck::MetadataUnknownTopic => {
            assert(spec_server_checks()[15] == check);
        },
        ServerCheck::CreateTopicsDuplicate => {
            assert(spec_server_checks()[16] == check);
        },
        ServerCheck::CreateTopicsValidateOnly => {
            assert(spec_server_checks()[17] == check);
        },
        ServerCheck::GroupsMemberIdRequired => {
            assert(spec_server_checks()[18] == check);
        },
        ServerCheck::GroupsAssignmentRoundTrips => {
            assert(spec_server_checks()[19] == check);
        },
        ServerCheck::GroupsStaleGenerationFenced => {
            assert(spec_server_checks()[20] == check);
        },
        ServerCheck::ConsumerGroupEpochAdvances => {
            assert(spec_server_checks()[21] == check);
        },
        ServerCheck::ConsumerGroupAssignsSubscription => {
            assert(spec_server_checks()[22] == check);
        },
        ServerCheck::ConsumerGroupOmittedSubscription => {
            assert(spec_server_checks()[23] == check);
        },
        ServerCheck::ConsumerGroupFencedEpoch => {
            assert(spec_server_checks()[24] == check);
        },
        ServerCheck::SaslAuthenticateRequiresHandshake => {
            assert(spec_server_checks()[25] == check);
        },
        ServerCheck::SaslRefusalNamesMechanisms => {
            assert(spec_server_checks()[26] == check);
        },
        ServerCheck::ScramNonceExtendsClient => {
            assert(spec_server_checks()[27] == check);
        },
        ServerCheck::ScramIterationFloor => {
            assert(spec_server_checks()[28] == check);
        },
        ServerCheck::ScramServerProvesItself => {
            assert(spec_server_checks()[29] == check);
        },
        ServerCheck::ProduceAcksZeroIsSilent => {
            assert(spec_server_checks()[30] == check);
        },
        ServerCheck::MetadataTopicIdIsStable => {
            assert(spec_server_checks()[31] == check);
        },
        ServerCheck::ProduceCompressedPassthrough => {
            assert(spec_server_checks()[32] == check);
        },
        ServerCheck::FetchLongPollContract => {
            assert(spec_server_checks()[33] == check);
        },
        ServerCheck::MetadataLeaderIsAKnownBroker => {
            assert(spec_server_checks()[34] == check);
        },
        ServerCheck::DescribeGroupsReportsMembers => {
            assert(spec_server_checks()[35] == check);
        },
        ServerCheck::OffsetsMetadataRoundTrips => {
            assert(spec_server_checks()[36] == check);
        },
        ServerCheck::CreateTopicsImpossibleReplication => {
            assert(spec_server_checks()[37] == check);
        },
        ServerCheck::GroupsLeaveUnregistersTheMember => {
            assert(spec_server_checks()[38] == check);
        },
        ServerCheck::ListOffsetsByTimestamp => {
            assert(spec_server_checks()[39] == check);
        },
        ServerCheck::DeleteTopicsRemovesTheTopic => {
            assert(spec_server_checks()[40] == check);
        },
        ServerCheck::ProduceIdempotentRetryIsDeduped => {
            assert(spec_server_checks()[41] == check);
        },
        ServerCheck::ProduceSequenceGapIsRefused => {
            assert(spec_server_checks()[42] == check);
        },
        ServerCheck::TxnInitBumpsTheEpoch => {
            assert(spec_server_checks()[43] == check);
        },
        ServerCheck::TxnStaleEpochIsFenced => {
            assert(spec_server_checks()[44] == check);
        },
        ServerCheck::TxnUnannouncedWriteStaysInTheTransaction => {
            assert(spec_server_checks()[45] == check);
        },
        ServerCheck::TxnOpenTransactionHoldsTheStableOffset => {
            assert(spec_server_checks()[46] == check);
        },
        ServerCheck::TxnFencedProducerCannotProduce => {
            assert(spec_server_checks()[47] == check);
        },
        ServerCheck::TxnCommitIsVisibleToReaders => {
            assert(spec_server_checks()[48] == check);
        },
        ServerCheck::TxnOffsetsWaitForTheCommit => {
            assert(spec_server_checks()[49] == check);
        },
        ServerCheck::TxnAbortIsReportedToReaders => {
            assert(spec_server_checks()[50] == check);
        },
        ServerCheck::ClusterBrokersAgreeOnTheLeader => {
            assert(spec_server_checks()[51] == check);
        },
        ServerCheck::ClusterBrokersAgreeOnTheCoordinator => {
            assert(spec_server_checks()[52] == check);
        },
        ServerCheck::ClusterReplicasSpanBrokers => {
            assert(spec_server_checks()[53] == check);
        },
        ServerCheck::ClusterWritesGoToTheLeader => {
            assert(spec_server_checks()[54] == check);
        },
        ServerCheck::ClusterGroupOffsetsNeedTheCoordinator => {
            assert(spec_server_checks()[55] == check);
        },
        ServerCheck::ClusterLeadershipMovesWhenABrokerStops => {
            assert(spec_server_checks()[56] == check);
        },
        ServerCheck::ClusterCommittedOffsetsOutliveTheCoordinator => {
            assert(spec_server_checks()[57] == check);
        },
        ServerCheck::VersionsAdvertisedAreSpeakable => {
            assert(spec_server_checks()[58] == check);
        },
    }
    assert forall|i: int, j: int| 0 <= i < j < spec_server_checks().len() implies
        spec_server_checks()[i] != spec_server_checks()[j] by {
        assert(rank(spec_server_checks()[i]) == i);
        assert(rank(spec_server_checks()[j]) == j);
    }
}

/// Where a check stands in the run order.
pub open spec fn rank(check: ServerCheck) -> int {
    match check {
        ServerCheck::V0Basic => 0,
        ServerCheck::CorrelationEcho => 1,
        ServerCheck::FlexibleV3 => 2,
        ServerCheck::UnsupportedVersion => 3,
        ServerCheck::MetadataBasic => 4,
        ServerCheck::MetadataFlexibleHeader => 5,
        ServerCheck::ProduceBasic => 6,
        ServerCheck::FetchBatchIntegrity => 7,
        ServerCheck::ProduceTopicId => 8,
        ServerCheck::FetchTopicId => 9,
        ServerCheck::ListOffsetsEarliestLatest => 10,
        ServerCheck::FindCoordinatorGroup => 11,
        ServerCheck::OffsetsCommitFetchRoundtrip => 12,
        ServerCheck::OffsetsUnsetIsSentinel => 13,
        ServerCheck::FetchOffsetOutOfRange => 14,
        ServerCheck::MetadataUnknownTopic => 15,
        ServerCheck::CreateTopicsDuplicate => 16,
        ServerCheck::CreateTopicsValidateOnly => 17,
        ServerCheck::GroupsMemberIdRequired => 18,
        ServerCheck::GroupsAssignmentRoundTrips => 19,
        ServerCheck::GroupsStaleGenerationFenced => 20,
        ServerCheck::ConsumerGroupEpochAdvances => 21,
        ServerCheck::ConsumerGroupAssignsSubscription => 22,
        ServerCheck::ConsumerGroupOmittedSubscription => 23,
        ServerCheck::ConsumerGroupFencedEpoch => 24,
        ServerCheck::SaslAuthenticateRequiresHandshake => 25,
        ServerCheck::SaslRefusalNamesMechanisms => 26,
        ServerCheck::ScramNonceExtendsClient => 27,
        ServerCheck::ScramIterationFloor => 28,
        ServerCheck::ScramServerProvesItself => 29,
        ServerCheck::ProduceAcksZeroIsSilent => 30,
        ServerCheck::MetadataTopicIdIsStable => 31,
        ServerCheck::ProduceCompressedPassthrough => 32,
        ServerCheck::FetchLongPollContract => 33,
        ServerCheck::MetadataLeaderIsAKnownBroker => 34,
        ServerCheck::DescribeGroupsReportsMembers => 35,
        ServerCheck::OffsetsMetadataRoundTrips => 36,
        ServerCheck::CreateTopicsImpossibleReplication => 37,
        ServerCheck::GroupsLeaveUnregistersTheMember => 38,
        ServerCheck::ListOffsetsByTimestamp => 39,
        ServerCheck::DeleteTopicsRemovesTheTopic => 40,
        ServerCheck::ProduceIdempotentRetryIsDeduped => 41,
        ServerCheck::ProduceSequenceGapIsRefused => 42,
        ServerCheck::TxnInitBumpsTheEpoch => 43,
        ServerCheck::TxnStaleEpochIsFenced => 44,
        ServerCheck::TxnUnannouncedWriteStaysInTheTransaction => 45,
        ServerCheck::TxnOpenTransactionHoldsTheStableOffset => 46,
        ServerCheck::TxnFencedProducerCannotProduce => 47,
        ServerCheck::TxnCommitIsVisibleToReaders => 48,
        ServerCheck::TxnOffsetsWaitForTheCommit => 49,
        ServerCheck::TxnAbortIsReportedToReaders => 50,
        ServerCheck::ClusterBrokersAgreeOnTheLeader => 51,
        ServerCheck::ClusterBrokersAgreeOnTheCoordinator => 52,
        ServerCheck::ClusterReplicasSpanBrokers => 53,
        ServerCheck::ClusterWritesGoToTheLeader => 54,
        ServerCheck::ClusterGroupOffsetsNeedTheCoordinator => 55,
        ServerCheck::ClusterLeadershipMovesWhenABrokerStops => 56,
        ServerCheck::ClusterCommittedOffsetsOutliveTheCoordinator => 57,
        ServerCheck::VersionsAdvertisedAreSpeakable => 58,
    }
}

/// The outcome of a check as a report lists it.
pub open spec fn is_outcome_of(outcome: CheckOutcome, check: ServerCheck, verdict: Verdict) -> bool {
    &&& outcome.id@ == check.spec_id()
    &&& outcome.requirement@ == check.spec_requirement()
    &&& outcome.verdict == verdict
}

/// The report of one server run: every check in run order with the verdict
/// it came to.
pub fn server_report(addr: &str, verdicts: Vec<Verdict>) -> (r: Report)
    requires
        verdicts@.len() == spec_server_checks().len(),
    ensures
        r.subject@ == "server "@ + addr@,
        r.format == crate::report::FORMAT,
        r.suite@ == crate::report::spec_suite(),
        r.outcomes@.len() == spec_server_checks().len(),
        forall|i: int|
            0 <= i < r.outcomes@.len() ==> is_outcome_of(
                #[trigger] r.outcomes@[i],
                spec_server_checks()[i],
                verdicts@[i],
            ),
{
    let checks = server_checks();
    let mut left = verdicts;
    let mut outcomes: Vec<CheckOutcome> = Vec::new();
    let mut i: usize = checks.len();
    while i > 0
        invariant
            i <= checks@.len(),
            checks@ == spec_server_checks(),
            verdicts@.len() == checks@.len(),
            left@ == verdicts@.take(i as int),
            outcomes@.len() == checks@.len() - i,
            forall|j: int|
                0 <= j < outcomes@.len() ==> is_outcome_of(
                    #[trigger] outcomes@[j],
                    checks@[i + j],
                    verdicts@[i + j],
                ),
        decreases i,
    {
        let ghost before = outcomes@;
        match left.pop() {
            Some(verdict) => {
                assert(left@ =~= verdicts@.take(i - 1));
                let check = checks[i - 1];
                outcomes.insert(
                    0,
                    CheckOutcome::new(
                        CheckId(String::from_str(check.id())),
                        String::from_str(check.requirement()),
                        verdict,
                    ),
                );
                assert forall|j: int| 0 <= j < outcomes@.len() implies is_outcome_of(
                    #[trigger] outcomes@[j],
                    checks@[i - 1 + j],
                    verdicts@[i - 1 + j],
                ) by {
                    if j > 0 {
                        assert(outcomes@[j] == before[j - 1]);
                    }
                }
            },
            None => {
                assert(false);
            },
        }
        i = i - 1;
    }
    Report::new(line("server ").lit(addr).done(), outcomes)
}

/// What an exchange yields once its answer has been read: the echoed
/// correlation id, the decoded header and body, and what was left over.
pub struct Reading {
    /// `None` when the frame was too short to carry one.
    pub echoed: Option<i32>,
    pub header: Result<(), String>,
    pub body: Result<Response, String>,
    pub trailing: usize,
}

/// What is made of an answer: it must echo the correlation id, its header
/// and its body must decode, and nothing may be left over.
pub open spec fn spec_judge_reading(
    sent: i32,
    header_version: i16,
    decode_at: i16,
    reading: Reading,
) -> Result<Response, tape::ErrorView> {
    match reading.echoed {
        None => Err(
            tape::ErrorView::Violation("response frame shorter than a correlation id"@),
        ),
        Some(echoed) => if echoed != sent {
            Err(
                tape::ErrorView::Violation(
                    "sent correlation id "@ + text::dec(sent as int) + ", response carries "@
                        + text::dec(echoed as int),
                ),
            )
        } else {
            match reading.header {
                Err(e) => Err(
                    tape::ErrorView::Violation(
                        "response header (decoded as v"@ + text::dec(header_version as int)
                            + "): "@ + e@,
                    ),
                ),
                Ok(()) => match reading.body {
                    Err(e) => Err(
                        tape::ErrorView::Violation(
                            "response body (decoded as v"@ + text::dec(decode_at as int) + "): "@
                                + e@,
                        ),
                    ),
                    Ok(response) => if reading.trailing > 0 {
                        Err(
                            tape::ErrorView::Violation(
                                ""@ + text::dec(reading.trailing as int)
                                    + " byte(s) of trailing garbage after the response body"@,
                            ),
                        )
                    } else {
                        Ok(response)
                    },
                },
            }
        },
    }
}

/// Every server-side exchange is judged here, so that all apis get the same
/// scrutiny.
pub fn judge_reading(sent: i32, header_version: i16, decode_at: i16, reading: Reading) -> (r:
    Result<Response, CheckError>)
    ensures
        (match r {
            Ok(response) => Ok(response),
            Err(e) => Err(e@),
        }) == spec_judge_reading(sent, header_version, decode_at, reading),
{
    let echoed: i32 = match reading.echoed {
        None => return Err(
            CheckError::Violation(String::from_str("response frame shorter than a correlation id")),
        ),
        Some(echoed) => echoed,
    };
    if echoed != sent {
        return Err(
            CheckError::Violation(
                line("sent correlation id ").num(sent as i64).lit(", response carries ").num(
                    echoed as i64,
                ).done(),
            ),
        );
    }
    if let Err(e) = reading.header {
        return Err(
            CheckError::Violation(
                line("response header (decoded as v").num(header_version as i64).lit("): ").lit(
                    e.as_str(),
                ).done(),
            ),
        );
    }
    match reading.body {
        Err(e) => Err(
            CheckError::Violation(
                line("response body (decoded as v").num(decode_at as i64).lit("): ").lit(
                    e.as_str(),
                ).done(),
            ),
        ),
        Ok(response) => if reading.trailing > 0 {
            Err(
                CheckError::Violation(
                    line("").count(reading.trailing as u128).lit(
                        " byte(s) of trailing garbage after the response body",
                    ).done(),
                ),
            )
        } else {
            Ok(response)
        },
    }
}

/// A wire failure as a check sees it: an implausible frame length is the
/// subject talking garbage, and everything else means that the exchange
/// never got a fair chance.
pub open spec fn spec_from_wire(error: WireError) -> tape::ErrorView {
    match error {
        WireError::BadFrameLength(_) => tape::ErrorView::Violation(error.spec_text()),
        _ => tape::ErrorView::Infra(error.spec_text()),
    }
}

pub fn from_wire(error: &WireError) -> (r: CheckError)
    ensures
        r@ == spec_from_wire(*error),
{
    match error {
        WireError::BadFrameLength(_) => CheckError::Violation(error.text()),
        _ => CheckError::Infra(error.text()),
    }
}

/// An api for whose version no header version is known cannot be asked.
pub fn unknown_header(api_key: i16, version: i16) -> (r: CheckError)
    ensures
        r@ == tape::ErrorView::Infra(
            "no header version known for api "@ + text::dec(api_key as int) + " v"@ + text::dec(
                version as int,
            ),
        ),
{
    CheckError::Infra(
        line("no header version known for api ").num(api_key as i64).lit(" v").num(
            version as i64,
        ).done(),
    )
}

/// The same for the produce that is sent without waiting.
pub fn unknown_produce_header(version: i16) -> (r: CheckError)
    ensures
        r@ == tape::ErrorView::Infra(
            "no header version for Produce v"@ + text::dec(version as int),
        ),
{
    CheckError::Infra(line("no header version for Produce v").num(version as i64).done())
}

} // verus!

//! Runs of the checks against the subject, each from its first action to its
//! verdict, without faults and with one that should be caught.

use vstd::prelude::*;
use vstd::string::*;

use crate::checks::batch;
use crate::checks::conformance;
use crate::checks::conformance::{Setting, World};
use crate::checks::conformance_basic;
use crate::checks::conformance_cluster;
use crate::checks::conformance_ends;
use crate::checks::conformance_failover;
use crate::checks::conformance_fenced;
use crate::checks::conformance_groups;
use crate::checks::conformance_log;
use crate::checks::conformance_members;
use crate::checks::conformance_misplaced;
use crate::checks::conformance_reads;
use crate::checks::conformance_sasl;
use crate::checks::conformance_strays;
use crate::checks::conformance_txn;
use crate::checks::conformance_versions;
use crate::checks::conformance_wire;
use crate::checks::ctx::ServerCtx;
use crate::checks::server::ServerCheck;
use crate::checks::tape;
use crate::checks::tape::{Event, StepView};
use crate::checks::trial;
use crate::subject::Fault;
use crate::subject::serve;
use crate::subject::state::ClusterView;
use crate::wire;
use crate::wire::Schema;

verus! {

/// Whether a check finds what it needs in a cluster, and nothing of its own: no
/// group and no member that it names itself. What compares brokers needs two of
/// them, and what stops one needs to be let.
pub open spec fn is_apart(check: ServerCheck, ctx: ServerCtx, state: ClusterView) -> bool {
    match check {
        ServerCheck::GroupsMemberIdRequired => !state.groups.contains_key(
            ctx.spec_check_group("memberid"@),
        ),
        ServerCheck::GroupsAssignmentRoundTrips => !state.groups.contains_key(
            ctx.spec_check_group("assignment"@),
        ),
        ServerCheck::GroupsStaleGenerationFenced => !state.groups.contains_key(
            ctx.spec_check_group("fencing"@),
        ),
        ServerCheck::GroupsLeaveUnregistersTheMember => !state.groups.contains_key(
            ctx.spec_check_group("leaving"@),
        ),
        ServerCheck::DescribeGroupsReportsMembers => !state.groups.contains_key(
            ctx.spec_check_group("described"@),
        ),
        ServerCheck::ConsumerGroupEpochAdvances => !state.members.contains_key(
            (ctx.spec_check_group("epoch"@), ctx.spec_member_id("epoch"@)),
        ),
        ServerCheck::ConsumerGroupFencedEpoch => !state.members.contains_key(
            (ctx.spec_check_group("cgfence"@), ctx.spec_member_id("fence"@)),
        ),
        ServerCheck::ConsumerGroupAssignsSubscription => !state.members.contains_key(
            (ctx.spec_check_group("cgassign"@), ctx.spec_member_id("assign"@)),
        ),
        ServerCheck::ConsumerGroupOmittedSubscription => !state.members.contains_key(
            (ctx.spec_check_group("cgsteady"@), ctx.spec_member_id("steady"@)),
        ),
        ServerCheck::SaslRefusalNamesMechanisms => conformance_sasl::has_sasl(ctx, state),
        ServerCheck::ProduceSequenceGapIsRefused => conformance_txn::has_ids(state),
        ServerCheck::ProduceIdempotentRetryIsDeduped => conformance_txn::has_ids(state),
        ServerCheck::TxnAbortIsReportedToReaders => conformance_txn::has_ids(state),
        ServerCheck::TxnCommitIsVisibleToReaders => conformance_txn::has_ids(state),
        ServerCheck::TxnOpenTransactionHoldsTheStableOffset => conformance_txn::has_ids(state),
        ServerCheck::TxnUnannouncedWriteStaysInTheTransaction => conformance_txn::has_ids(state),
        ServerCheck::TxnFencedProducerCannotProduce => conformance_txn::has_ids(state),
        ServerCheck::TxnOffsetsWaitForTheCommit => conformance_txn::has_ids(state),
        ServerCheck::ClusterBrokersAgreeOnTheLeader => state.ports.len() >= 2,
        ServerCheck::ClusterBrokersAgreeOnTheCoordinator => state.ports.len() >= 2,
        ServerCheck::ClusterReplicasSpanBrokers => state.ports.len() >= 2,
        ServerCheck::ClusterWritesGoToTheLeader => state.ports.len() >= 2,
        ServerCheck::ClusterGroupOffsetsNeedTheCoordinator => state.ports.len() >= 2,
        ServerCheck::ClusterLeadershipMovesWhenABrokerStops => {
            state.ports.len() >= 2 && ctx.config.control
        },
        ServerCheck::ClusterCommittedOffsetsOutliveTheCoordinator => {
            state.ports.len() >= 2 && ctx.config.control
        },
        _ => true,
    }
}

/// Whether a version is spoken at which a fault shows: two of them touch only
/// some versions of one request.
pub open spec fn is_shown(schema: Schema, fault: Fault) -> bool {
    match fault {
        Fault::FindCoordinatorWrongKey => schema.find_coordinator.max
            >= wire::FIND_COORDINATOR_BATCHED,
        Fault::MisshapesOneProduceVersion => schema.produce.min <= serve::MISSHAPEN_VERSION,
        _ => true,
    }
}

/// Whether what a check compresses for itself can be compressed.
pub open spec fn is_packed(check: ServerCheck) -> bool {
    check is ProduceCompressedPassthrough ==> forall|plain: Seq<u8>| #[trigger]
        batch::gzipped(plain) is Ok
}

/// A run of a check against the subject with a list of faults.
pub open spec fn is_run_under(
    setting: Setting,
    faults: Seq<Fault>,
    check: ServerCheck,
    ctx: ServerCtx,
    tape: Seq<Event>,
    worlds: Seq<World>,
) -> bool {
    &&& worlds[0].state.faults == faults
    &&& conformance::is_run(Setting { faults, ..setting }, check, ctx, tape, worlds)
}

/// A run of a check that finds what it needs, without faults or with one that
/// it is there to catch.
pub open spec fn is_tried(
    check: ServerCheck,
    setting: Setting,
    ctx: ServerCtx,
    tape: Seq<Event>,
    worlds: Seq<World>,
) -> bool {
    &&& trial::is_trial(check, setting.faults)
    &&& setting.faults.len() > 0 ==> is_shown(setting.schema, setting.faults[0])
    &&& conformance::is_set(setting, ctx, worlds[0].state)
    &&& is_apart(check, ctx, worlds[0].state)
    &&& is_packed(check)
    &&& worlds[0].state.faults == setting.faults
    &&& conformance::is_run(setting, check, ctx, tape, worlds)
}

/// The checks of `conformance_basic`.
pub open spec fn is_basic(check: ServerCheck) -> bool {
    match check {
        ServerCheck::V0Basic
        | ServerCheck::CorrelationEcho
        | ServerCheck::FlexibleV3
        | ServerCheck::UnsupportedVersion
        | ServerCheck::MetadataBasic
        | ServerCheck::MetadataFlexibleHeader
        | ServerCheck::MetadataUnknownTopic
        | ServerCheck::CreateTopicsDuplicate
        | ServerCheck::CreateTopicsValidateOnly
        | ServerCheck::CreateTopicsImpossibleReplication => true,
        _ => false,
    }
}

#[verifier::rlimit(60)]
proof fn lemma_basic(
    check: ServerCheck,
    setting: Setting,
    ctx: ServerCtx,
    tape: Seq<Event>,
    worlds: Seq<World>,
)
    requires
        is_basic(check),
        is_tried(check, setting, ctx, tape, worlds),
    ensures
        trial::judged(setting.faults, check.spec_flow(ctx, tape)),
{
    match check {
        ServerCheck::V0Basic => {
            conformance_basic::lemma_v0_basic(setting, ctx, tape, worlds);
        },
        ServerCheck::CorrelationEcho => {
            conformance_basic::lemma_correlation_echo(setting, ctx, tape, worlds);
        },
        ServerCheck::FlexibleV3 => {
            conformance_basic::lemma_flexible_v3(setting, ctx, tape, worlds);
        },
        ServerCheck::UnsupportedVersion => {
            conformance_basic::lemma_unsupported_version(setting, ctx, tape, worlds);
        },
        ServerCheck::MetadataBasic => {
            conformance_basic::lemma_metadata_basic(setting, ctx, tape, worlds);
        },
        ServerCheck::MetadataFlexibleHeader => {
            conformance_basic::lemma_metadata_flexible_header(setting, ctx, tape, worlds);
        },
        ServerCheck::MetadataUnknownTopic => {
            conformance_basic::lemma_metadata_unknown_topic(setting, ctx, tape, worlds);
        },
        ServerCheck::CreateTopicsDuplicate => {
            conformance_basic::lemma_create_topics_duplicate(setting, ctx, tape, worlds);
        },
        ServerCheck::CreateTopicsValidateOnly => {
            conformance_basic::lemma_create_topics_validate_only(setting, ctx, tape, worlds);
        },
        ServerCheck::CreateTopicsImpossibleReplication => {
            conformance_basic::lemma_create_topics_impossible_replication(
                setting,
                ctx,
                tape,
                worlds,
            );
        },
        _ => {},
    }
}

/// The checks of `conformance_log`.
pub open spec fn is_log(check: ServerCheck) -> bool {
    match check {
        ServerCheck::ProduceBasic => true,
        _ => false,
    }
}

#[verifier::rlimit(60)]
proof fn lemma_log(
    check: ServerCheck,
    setting: Setting,
    ctx: ServerCtx,
    tape: Seq<Event>,
    worlds: Seq<World>,
)
    requires
        is_log(check),
        is_tried(check, setting, ctx, tape, worlds),
    ensures
        trial::judged(setting.faults, check.spec_flow(ctx, tape)),
{
    match check {
        ServerCheck::ProduceBasic => {
            conformance_log::lemma_produce_basic(setting, ctx, tape, worlds);
        },
        _ => {},
    }
}

/// The checks of `conformance_reads`.
pub open spec fn is_read(check: ServerCheck) -> bool {
    match check {
        ServerCheck::FetchBatchIntegrity
        | ServerCheck::FetchTopicId
        | ServerCheck::FetchOffsetOutOfRange
        | ServerCheck::ListOffsetsEarliestLatest
        | ServerCheck::ListOffsetsByTimestamp
        | ServerCheck::MetadataTopicIdIsStable
        | ServerCheck::DeleteTopicsRemovesTheTopic => true,
        _ => false,
    }
}

#[verifier::rlimit(60)]
proof fn lemma_read(
    check: ServerCheck,
    setting: Setting,
    ctx: ServerCtx,
    tape: Seq<Event>,
    worlds: Seq<World>,
)
    requires
        is_read(check),
        is_tried(check, setting, ctx, tape, worlds),
    ensures
        trial::judged(setting.faults, check.spec_flow(ctx, tape)),
{
    match check {
        ServerCheck::FetchBatchIntegrity => {
            conformance_reads::lemma_fetch_batch_integrity(setting, ctx, tape, worlds);
        },
        ServerCheck::FetchTopicId => {
            conformance_reads::lemma_fetch_topic_id(setting, ctx, tape, worlds);
        },
        ServerCheck::FetchOffsetOutOfRange => {
            conformance_reads::lemma_fetch_offset_out_of_range(setting, ctx, tape, worlds);
        },
        ServerCheck::ListOffsetsEarliestLatest => {
            conformance_reads::lemma_list_offsets_earliest_latest(setting, ctx, tape, worlds);
        },
        ServerCheck::ListOffsetsByTimestamp => {
            conformance_reads::lemma_list_offsets_by_timestamp(setting, ctx, tape, worlds);
        },
        ServerCheck::MetadataTopicIdIsStable => {
            conformance_reads::lemma_metadata_topic_id_is_stable(setting, ctx, tape, worlds);
        },
        ServerCheck::DeleteTopicsRemovesTheTopic => {
            conformance_reads::lemma_delete_topics_removes_the_topic(setting, ctx, tape, worlds);
        },
        _ => {},
    }
}

/// The checks of `conformance_groups`.
pub open spec fn is_group(check: ServerCheck) -> bool {
    match check {
        ServerCheck::FindCoordinatorGroup
        | ServerCheck::GroupsMemberIdRequired
        | ServerCheck::GroupsAssignmentRoundTrips
        | ServerCheck::GroupsStaleGenerationFenced
        | ServerCheck::GroupsLeaveUnregistersTheMember
        | ServerCheck::DescribeGroupsReportsMembers => true,
        _ => false,
    }
}

#[verifier::rlimit(60)]
proof fn lemma_group(
    check: ServerCheck,
    setting: Setting,
    ctx: ServerCtx,
    tape: Seq<Event>,
    worlds: Seq<World>,
)
    requires
        is_group(check),
        is_tried(check, setting, ctx, tape, worlds),
    ensures
        trial::judged(setting.faults, check.spec_flow(ctx, tape)),
{
    match check {
        ServerCheck::FindCoordinatorGroup => {
            conformance_groups::lemma_find_coordinator_group(setting, ctx, tape, worlds);
        },
        ServerCheck::GroupsMemberIdRequired => {
            conformance_groups::lemma_groups_member_id_required(setting, ctx, tape, worlds);
        },
        ServerCheck::GroupsAssignmentRoundTrips => {
            conformance_groups::lemma_groups_assignment_round_trips(setting, ctx, tape, worlds);
        },
        ServerCheck::GroupsStaleGenerationFenced => {
            conformance_groups::lemma_groups_stale_generation_fenced(setting, ctx, tape, worlds);
        },
        ServerCheck::GroupsLeaveUnregistersTheMember => {
            conformance_groups::lemma_groups_leave_unregisters_the_member(
                setting,
                ctx,
                tape,
                worlds,
            );
        },
        ServerCheck::DescribeGroupsReportsMembers => {
            conformance_groups::lemma_describe_groups_reports_members(setting, ctx, tape, worlds);
        },
        _ => {},
    }
}

/// The checks of `conformance_members`.
pub open spec fn is_member(check: ServerCheck) -> bool {
    match check {
        ServerCheck::ConsumerGroupEpochAdvances
        | ServerCheck::ConsumerGroupFencedEpoch
        | ServerCheck::ConsumerGroupAssignsSubscription
        | ServerCheck::ConsumerGroupOmittedSubscription
        | ServerCheck::OffsetsCommitFetchRoundtrip
        | ServerCheck::OffsetsUnsetIsSentinel
        | ServerCheck::OffsetsMetadataRoundTrips => true,
        _ => false,
    }
}

#[verifier::rlimit(60)]
proof fn lemma_member(
    check: ServerCheck,
    setting: Setting,
    ctx: ServerCtx,
    tape: Seq<Event>,
    worlds: Seq<World>,
)
    requires
        is_member(check),
        is_tried(check, setting, ctx, tape, worlds),
    ensures
        trial::judged(setting.faults, check.spec_flow(ctx, tape)),
{
    match check {
        ServerCheck::ConsumerGroupEpochAdvances => {
            conformance_members::lemma_consumer_group_epoch_advances(setting, ctx, tape, worlds);
        },
        ServerCheck::ConsumerGroupFencedEpoch => {
            conformance_members::lemma_consumer_group_fenced_epoch(setting, ctx, tape, worlds);
        },
        ServerCheck::ConsumerGroupAssignsSubscription => {
            conformance_members::lemma_consumer_group_assigns_subscription(
                setting,
                ctx,
                tape,
                worlds,
            );
        },
        ServerCheck::ConsumerGroupOmittedSubscription => {
            conformance_members::lemma_consumer_group_omitted_subscription(
                setting,
                ctx,
                tape,
                worlds,
            );
        },
        ServerCheck::OffsetsCommitFetchRoundtrip => {
            conformance_members::lemma_offsets_commit_fetch_roundtrip(setting, ctx, tape, worlds);
        },
        ServerCheck::OffsetsUnsetIsSentinel => {
            conformance_members::lemma_offsets_unset_is_sentinel(setting, ctx, tape, worlds);
        },
        ServerCheck::OffsetsMetadataRoundTrips => {
            conformance_members::lemma_offsets_metadata_round_trips(setting, ctx, tape, worlds);
        },
        _ => {},
    }
}

/// The checks of `conformance_sasl`.
pub open spec fn is_sasl(check: ServerCheck) -> bool {
    match check {
        ServerCheck::SaslAuthenticateRequiresHandshake
        | ServerCheck::SaslRefusalNamesMechanisms => true,
        _ => false,
    }
}

#[verifier::rlimit(60)]
proof fn lemma_sasl(
    check: ServerCheck,
    setting: Setting,
    ctx: ServerCtx,
    tape: Seq<Event>,
    worlds: Seq<World>,
)
    requires
        is_sasl(check),
        is_tried(check, setting, ctx, tape, worlds),
    ensures
        trial::judged(setting.faults, check.spec_flow(ctx, tape)),
{
    match check {
        ServerCheck::SaslAuthenticateRequiresHandshake => {
            conformance_sasl::lemma_sasl_authenticate_requires_handshake(
                setting,
                ctx,
                tape,
                worlds,
            );
        },
        ServerCheck::SaslRefusalNamesMechanisms => {
            conformance_sasl::lemma_sasl_refusal_names_mechanisms(setting, ctx, tape, worlds);
        },
        _ => {},
    }
}

/// The checks of `conformance_txn`.
pub open spec fn is_txn(check: ServerCheck) -> bool {
    match check {
        ServerCheck::TxnInitBumpsTheEpoch
        | ServerCheck::TxnStaleEpochIsFenced
        | ServerCheck::ProduceSequenceGapIsRefused
        | ServerCheck::ProduceIdempotentRetryIsDeduped => true,
        _ => false,
    }
}

#[verifier::rlimit(60)]
proof fn lemma_txn(
    check: ServerCheck,
    setting: Setting,
    ctx: ServerCtx,
    tape: Seq<Event>,
    worlds: Seq<World>,
)
    requires
        is_txn(check),
        is_tried(check, setting, ctx, tape, worlds),
    ensures
        trial::judged(setting.faults, check.spec_flow(ctx, tape)),
{
    match check {
        ServerCheck::TxnInitBumpsTheEpoch => {
            conformance_txn::lemma_txn_init_bumps_the_epoch(setting, ctx, tape, worlds);
        },
        ServerCheck::TxnStaleEpochIsFenced => {
            conformance_txn::lemma_txn_stale_epoch_is_fenced(setting, ctx, tape, worlds);
        },
        ServerCheck::ProduceSequenceGapIsRefused => {
            conformance_txn::lemma_produce_sequence_gap_is_refused(setting, ctx, tape, worlds);
        },
        ServerCheck::ProduceIdempotentRetryIsDeduped => {
            conformance_txn::lemma_produce_idempotent_retry_is_deduped(setting, ctx, tape, worlds);
        },
        _ => {},
    }
}

/// The checks of `conformance_ends`.
pub open spec fn is_end(check: ServerCheck) -> bool {
    match check {
        ServerCheck::TxnAbortIsReportedToReaders
        | ServerCheck::TxnCommitIsVisibleToReaders
        | ServerCheck::TxnOpenTransactionHoldsTheStableOffset
        | ServerCheck::TxnUnannouncedWriteStaysInTheTransaction => true,
        _ => false,
    }
}

#[verifier::rlimit(60)]
proof fn lemma_end(
    check: ServerCheck,
    setting: Setting,
    ctx: ServerCtx,
    tape: Seq<Event>,
    worlds: Seq<World>,
)
    requires
        is_end(check),
        is_tried(check, setting, ctx, tape, worlds),
    ensures
        trial::judged(setting.faults, check.spec_flow(ctx, tape)),
{
    match check {
        ServerCheck::TxnAbortIsReportedToReaders => {
            conformance_ends::lemma_txn_abort_is_reported_to_readers(setting, ctx, tape, worlds);
        },
        ServerCheck::TxnCommitIsVisibleToReaders => {
            conformance_ends::lemma_txn_commit_is_visible_to_readers(setting, ctx, tape, worlds);
        },
        ServerCheck::TxnOpenTransactionHoldsTheStableOffset => {
            conformance_ends::lemma_txn_open_transaction_holds_the_stable_offset(
                setting,
                ctx,
                tape,
                worlds,
            );
        },
        ServerCheck::TxnUnannouncedWriteStaysInTheTransaction => {
            conformance_ends::lemma_txn_unannounced_write_stays_in_the_transaction(
                setting,
                ctx,
                tape,
                worlds,
            );
        },
        _ => {},
    }
}

/// The checks of `conformance_strays`.
pub open spec fn is_stray(check: ServerCheck) -> bool {
    match check {
        ServerCheck::ProduceTopicId
        | ServerCheck::MetadataLeaderIsAKnownBroker => true,
        _ => false,
    }
}

#[verifier::rlimit(60)]
proof fn lemma_stray(
    check: ServerCheck,
    setting: Setting,
    ctx: ServerCtx,
    tape: Seq<Event>,
    worlds: Seq<World>,
)
    requires
        is_stray(check),
        is_tried(check, setting, ctx, tape, worlds),
    ensures
        trial::judged(setting.faults, check.spec_flow(ctx, tape)),
{
    match check {
        ServerCheck::ProduceTopicId => {
            conformance_strays::lemma_produce_topic_id(setting, ctx, tape, worlds);
        },
        ServerCheck::MetadataLeaderIsAKnownBroker => {
            conformance_strays::lemma_metadata_leader_is_a_known_broker(setting, ctx, tape, worlds);
        },
        _ => {},
    }
}

/// The checks of `conformance_fenced`.
pub open spec fn is_fenced(check: ServerCheck) -> bool {
    match check {
        ServerCheck::TxnFencedProducerCannotProduce
        | ServerCheck::TxnOffsetsWaitForTheCommit => true,
        _ => false,
    }
}

#[verifier::rlimit(60)]
proof fn lemma_fenced(
    check: ServerCheck,
    setting: Setting,
    ctx: ServerCtx,
    tape: Seq<Event>,
    worlds: Seq<World>,
)
    requires
        is_fenced(check),
        is_tried(check, setting, ctx, tape, worlds),
    ensures
        trial::judged(setting.faults, check.spec_flow(ctx, tape)),
{
    match check {
        ServerCheck::TxnFencedProducerCannotProduce => {
            conformance_fenced::lemma_txn_fenced_producer_cannot_produce(
                setting,
                ctx,
                tape,
                worlds,
            );
        },
        ServerCheck::TxnOffsetsWaitForTheCommit => {
            conformance_fenced::lemma_txn_offsets_wait_for_the_commit(setting, ctx, tape, worlds);
        },
        _ => {},
    }
}

/// The checks of `conformance_wire`.
pub open spec fn is_wire(check: ServerCheck) -> bool {
    match check {
        ServerCheck::ProduceAcksZeroIsSilent
        | ServerCheck::ProduceCompressedPassthrough => true,
        _ => false,
    }
}

#[verifier::rlimit(60)]
proof fn lemma_wire(
    check: ServerCheck,
    setting: Setting,
    ctx: ServerCtx,
    tape: Seq<Event>,
    worlds: Seq<World>,
)
    requires
        is_wire(check),
        is_tried(check, setting, ctx, tape, worlds),
    ensures
        trial::judged(setting.faults, check.spec_flow(ctx, tape)),
{
    match check {
        ServerCheck::ProduceAcksZeroIsSilent => {
            conformance_wire::lemma_produce_acks_zero_is_silent(setting, ctx, tape, worlds);
        },
        ServerCheck::ProduceCompressedPassthrough => {
            conformance_wire::lemma_produce_compressed_passthrough(setting, ctx, tape, worlds);
        },
        _ => {},
    }
}

/// The checks of `conformance_cluster`.
pub open spec fn is_cluster(check: ServerCheck) -> bool {
    match check {
        ServerCheck::ClusterBrokersAgreeOnTheLeader
        | ServerCheck::ClusterBrokersAgreeOnTheCoordinator
        | ServerCheck::ClusterReplicasSpanBrokers => true,
        _ => false,
    }
}

#[verifier::rlimit(60)]
proof fn lemma_cluster(
    check: ServerCheck,
    setting: Setting,
    ctx: ServerCtx,
    tape: Seq<Event>,
    worlds: Seq<World>,
)
    requires
        is_cluster(check),
        is_tried(check, setting, ctx, tape, worlds),
    ensures
        trial::judged(setting.faults, check.spec_flow(ctx, tape)),
{
    match check {
        ServerCheck::ClusterBrokersAgreeOnTheLeader => {
            conformance_cluster::lemma_cluster_brokers_agree_on_the_leader(
                setting,
                ctx,
                tape,
                worlds,
            );
        },
        ServerCheck::ClusterBrokersAgreeOnTheCoordinator => {
            conformance_cluster::lemma_cluster_brokers_agree_on_the_coordinator(
                setting,
                ctx,
                tape,
                worlds,
            );
        },
        ServerCheck::ClusterReplicasSpanBrokers => {
            conformance_cluster::lemma_cluster_replicas_span_brokers(setting, ctx, tape, worlds);
        },
        _ => {},
    }
}

/// The checks of `conformance_misplaced`.
pub open spec fn is_misplaced(check: ServerCheck) -> bool {
    match check {
        ServerCheck::ClusterWritesGoToTheLeader
        | ServerCheck::ClusterGroupOffsetsNeedTheCoordinator => true,
        _ => false,
    }
}

#[verifier::rlimit(60)]
proof fn lemma_misplaced(
    check: ServerCheck,
    setting: Setting,
    ctx: ServerCtx,
    tape: Seq<Event>,
    worlds: Seq<World>,
)
    requires
        is_misplaced(check),
        is_tried(check, setting, ctx, tape, worlds),
    ensures
        trial::judged(setting.faults, check.spec_flow(ctx, tape)),
{
    match check {
        ServerCheck::ClusterWritesGoToTheLeader => {
            conformance_misplaced::lemma_cluster_writes_go_to_the_leader(
                setting,
                ctx,
                tape,
                worlds,
            );
        },
        ServerCheck::ClusterGroupOffsetsNeedTheCoordinator => {
            conformance_misplaced::lemma_cluster_group_offsets_need_the_coordinator(
                setting,
                ctx,
                tape,
                worlds,
            );
        },
        _ => {},
    }
}

/// The checks of `conformance_failover`.
pub open spec fn is_failover(check: ServerCheck) -> bool {
    match check {
        ServerCheck::ClusterLeadershipMovesWhenABrokerStops
        | ServerCheck::ClusterCommittedOffsetsOutliveTheCoordinator => true,
        _ => false,
    }
}

#[verifier::rlimit(60)]
proof fn lemma_failover(
    check: ServerCheck,
    setting: Setting,
    ctx: ServerCtx,
    tape: Seq<Event>,
    worlds: Seq<World>,
)
    requires
        is_failover(check),
        is_tried(check, setting, ctx, tape, worlds),
    ensures
        trial::judged(setting.faults, check.spec_flow(ctx, tape)),
{
    match check {
        ServerCheck::ClusterLeadershipMovesWhenABrokerStops => {
            conformance_failover::lemma_cluster_leadership_moves_when_a_broker_stops(
                setting,
                ctx,
                tape,
                worlds,
            );
        },
        ServerCheck::ClusterCommittedOffsetsOutliveTheCoordinator => {
            conformance_failover::lemma_cluster_committed_offsets_outlive_the_coordinator(
                setting,
                ctx,
                tape,
                worlds,
            );
        },
        _ => {},
    }
}

/// The checks of `conformance_versions`.
pub open spec fn is_version(check: ServerCheck) -> bool {
    match check {
        ServerCheck::VersionsAdvertisedAreSpeakable => true,
        _ => false,
    }
}

#[verifier::rlimit(60)]
proof fn lemma_version(
    check: ServerCheck,
    setting: Setting,
    ctx: ServerCtx,
    tape: Seq<Event>,
    worlds: Seq<World>,
)
    requires
        is_version(check),
        is_tried(check, setting, ctx, tape, worlds),
    ensures
        trial::judged(setting.faults, check.spec_flow(ctx, tape)),
{
    match check {
        ServerCheck::VersionsAdvertisedAreSpeakable => {
            conformance_versions::lemma_versions_advertised_are_speakable(
                setting,
                ctx,
                tape,
                worlds,
            );
        },
        _ => {},
    }
}

/// The checks whose runs are spoken of: all but four. What
/// `ScramNonceExtendsClient`, `ScramIterationFloor` and
/// `ScramServerProvesItself` judge is signed with hashes that nothing here
/// computes, and what `FetchLongPollContract` judges is how long an answer
/// took, which no tape fixes.
pub open spec fn is_rehearsed(check: ServerCheck) -> bool {
    ||| is_basic(check)
    ||| is_log(check)
    ||| is_read(check)
    ||| is_group(check)
    ||| is_member(check)
    ||| is_sasl(check)
    ||| is_txn(check)
    ||| is_end(check)
    ||| is_stray(check)
    ||| is_fenced(check)
    ||| is_wire(check)
    ||| is_cluster(check)
    ||| is_misplaced(check)
    ||| is_failover(check)
    ||| is_version(check)
}

/// A check of those that are spoken of comes to what it should.
proof fn lemma_tried(
    check: ServerCheck,
    setting: Setting,
    ctx: ServerCtx,
    tape: Seq<Event>,
    worlds: Seq<World>,
)
    requires
        is_rehearsed(check),
        is_tried(check, setting, ctx, tape, worlds),
    ensures
        trial::judged(setting.faults, check.spec_flow(ctx, tape)),
{
    if is_basic(check) {
        lemma_basic(check, setting, ctx, tape, worlds);
    } else if is_log(check) {
        lemma_log(check, setting, ctx, tape, worlds);
    } else if is_read(check) {
        lemma_read(check, setting, ctx, tape, worlds);
    } else if is_group(check) {
        lemma_group(check, setting, ctx, tape, worlds);
    } else if is_member(check) {
        lemma_member(check, setting, ctx, tape, worlds);
    } else if is_sasl(check) {
        lemma_sasl(check, setting, ctx, tape, worlds);
    } else if is_txn(check) {
        lemma_txn(check, setting, ctx, tape, worlds);
    } else if is_end(check) {
        lemma_end(check, setting, ctx, tape, worlds);
    } else if is_stray(check) {
        lemma_stray(check, setting, ctx, tape, worlds);
    } else if is_fenced(check) {
        lemma_fenced(check, setting, ctx, tape, worlds);
    } else if is_wire(check) {
        lemma_wire(check, setting, ctx, tape, worlds);
    } else if is_cluster(check) {
        lemma_cluster(check, setting, ctx, tape, worlds);
    } else if is_misplaced(check) {
        lemma_misplaced(check, setting, ctx, tape, worlds);
    } else if is_failover(check) {
        lemma_failover(check, setting, ctx, tape, worlds);
    } else if is_version(check) {
        lemma_version(check, setting, ctx, tape, worlds);
    }
}

/// A check of those that are spoken of, run against the subject without
/// faults: where it comes to a verdict, it has passed. What the harness
/// reported is what came of each action that the check asked for, and every
/// answer shows what the subject serves. What is compressed on the way is taken
/// to be compressed without an error.
pub proof fn law_subject_passes(
    check: ServerCheck,
    setting: Setting,
    ctx: ServerCtx,
    tape: Seq<Event>,
    worlds: Seq<World>,
)
    requires
        is_rehearsed(check),
        conformance::is_set(setting, ctx, worlds[0].state),
        is_apart(check, ctx, worlds[0].state),
        is_run_under(setting, Seq::empty(), check, ctx, tape, worlds),
    ensures
        is_packed(check) ==> conformance::passes(check, ctx, tape),
{
    if is_packed(check) {
        let sound = Setting { faults: Seq::empty(), ..setting };
        lemma_tried(check, sound, ctx, tape, worlds);
    }
}

/// A check run against the subject with a fault that it is there to catch, at
/// versions where the fault shows: where it comes to a verdict, it has failed.
pub proof fn law_fault_is_caught(
    check: ServerCheck,
    fault: Fault,
    setting: Setting,
    ctx: ServerCtx,
    tape: Seq<Event>,
    worlds: Seq<World>,
)
    requires
        trial::targets(check, fault),
        is_shown(setting.schema, fault),
        conformance::is_set(setting, ctx, worlds[0].state),
        is_apart(check, ctx, worlds[0].state),
        is_run_under(setting, seq![fault], check, ctx, tape, worlds),
    ensures
        is_packed(check) ==> (tape::spec_conclude(
            check.spec_flow(ctx, tape),
        ) matches StepView::Done(verdict) ==> verdict is Fail),
{
    if is_packed(check) {
        let faulty = Setting { faults: seq![fault], ..setting };
        assert(is_rehearsed(check));
        lemma_tried(check, faulty, ctx, tape, worlds);
    }
}

} // verus!

//! A subject that cannot be reached is no evidence against it.

use vstd::prelude::*;
use vstd::string::*;

use crate::checks::ctx::ServerCtx;
use crate::checks::server::ServerCheck;
use crate::checks::server_basic;
use crate::checks::server_cluster;
use crate::checks::server_groups;
use crate::checks::server_log;
use crate::checks::server_sasl;
use crate::checks::server_txn;
use crate::checks::server_versions;
use crate::checks::tape;
use crate::checks::tape::{Event, StepView};

verus! {

/// Whether no connection was ever opened.
pub open spec fn never_connected(tape: Seq<Event>) -> bool {
    forall|i: int| 0 <= i < tape.len() ==> !((#[trigger] tape[i]) is Connected)
}

/// Whether a step says that the subject is at fault.
pub open spec fn blames(step: StepView) -> bool {
    step matches StepView::Done(verdict) && verdict is Fail
}

/// Whether a step says that the subject did as it should.
pub open spec fn clears(step: StepView) -> bool {
    step matches StepView::Done(verdict) && verdict is Pass
}

/// Whether a step says neither.
pub open spec fn withholds(step: StepView) -> bool {
    !blames(step) && !clears(step)
}

proof fn lemma_v0_basic(ctx: ServerCtx, tape: Seq<Event>)
    requires
        never_connected(tape),
    ensures
        withholds(tape::spec_conclude(server_basic::spec_v0_basic(ctx, tape))),
{
}

proof fn lemma_correlation_echo(ctx: ServerCtx, tape: Seq<Event>)
    requires
        never_connected(tape),
    ensures
        withholds(tape::spec_conclude(server_basic::spec_correlation_echo(ctx, tape))),
{
}

proof fn lemma_flexible_v3(ctx: ServerCtx, tape: Seq<Event>)
    requires
        never_connected(tape),
    ensures
        withholds(tape::spec_conclude(server_basic::spec_flexible_v3(ctx, tape))),
{
}

proof fn lemma_unsupported_version(ctx: ServerCtx, tape: Seq<Event>)
    requires
        never_connected(tape),
    ensures
        withholds(tape::spec_conclude(server_basic::spec_unsupported_version(ctx, tape))),
{
}

proof fn lemma_metadata_basic(ctx: ServerCtx, tape: Seq<Event>)
    requires
        never_connected(tape),
    ensures
        withholds(tape::spec_conclude(server_basic::spec_metadata_basic(ctx, tape))),
{
}

proof fn lemma_metadata_flexible_header(ctx: ServerCtx, tape: Seq<Event>)
    requires
        never_connected(tape),
    ensures
        withholds(tape::spec_conclude(server_basic::spec_metadata_flexible_header(ctx, tape))),
{
}

proof fn lemma_produce_basic(ctx: ServerCtx, tape: Seq<Event>)
    requires
        never_connected(tape),
    ensures
        withholds(tape::spec_conclude(server_log::spec_produce_basic(ctx, tape))),
{
}

proof fn lemma_fetch_batch_integrity(ctx: ServerCtx, tape: Seq<Event>)
    requires
        never_connected(tape),
    ensures
        withholds(tape::spec_conclude(server_log::spec_fetch_batch_integrity(ctx, tape))),
{
}

proof fn lemma_produce_topic_id(ctx: ServerCtx, tape: Seq<Event>)
    requires
        never_connected(tape),
    ensures
        withholds(tape::spec_conclude(server_log::spec_produce_topic_id(ctx, tape))),
{
}

proof fn lemma_fetch_topic_id(ctx: ServerCtx, tape: Seq<Event>)
    requires
        never_connected(tape),
    ensures
        withholds(tape::spec_conclude(server_log::spec_fetch_topic_id(ctx, tape))),
{
}

proof fn lemma_list_offsets_earliest_latest(ctx: ServerCtx, tape: Seq<Event>)
    requires
        never_connected(tape),
    ensures
        withholds(tape::spec_conclude(server_log::spec_list_offsets_earliest_latest(ctx, tape))),
{
}

proof fn lemma_find_coordinator_group(ctx: ServerCtx, tape: Seq<Event>)
    requires
        never_connected(tape),
    ensures
        withholds(tape::spec_conclude(server_groups::spec_find_coordinator_group(ctx, tape))),
{
}

proof fn lemma_offsets_commit_fetch_roundtrip(ctx: ServerCtx, tape: Seq<Event>)
    requires
        never_connected(tape),
    ensures
        withholds(
            tape::spec_conclude(
                server_groups::spec_offsets_commit_fetch_roundtrip(ctx, tape),
            ),
        ),
{
}

proof fn lemma_offsets_unset_is_sentinel(ctx: ServerCtx, tape: Seq<Event>)
    requires
        never_connected(tape),
    ensures
        withholds(tape::spec_conclude(server_groups::spec_offsets_unset_is_sentinel(ctx, tape))),
{
}

proof fn lemma_fetch_offset_out_of_range(ctx: ServerCtx, tape: Seq<Event>)
    requires
        never_connected(tape),
    ensures
        withholds(tape::spec_conclude(server_log::spec_fetch_offset_out_of_range(ctx, tape))),
{
}

proof fn lemma_metadata_unknown_topic(ctx: ServerCtx, tape: Seq<Event>)
    requires
        never_connected(tape),
    ensures
        withholds(tape::spec_conclude(server_basic::spec_metadata_unknown_topic(ctx, tape))),
{
}

proof fn lemma_create_topics_duplicate(ctx: ServerCtx, tape: Seq<Event>)
    requires
        never_connected(tape),
    ensures
        withholds(tape::spec_conclude(server_basic::spec_create_topics_duplicate(ctx, tape))),
{
}

proof fn lemma_create_topics_validate_only(ctx: ServerCtx, tape: Seq<Event>)
    requires
        never_connected(tape),
    ensures
        withholds(tape::spec_conclude(server_basic::spec_create_topics_validate_only(ctx, tape))),
{
}

proof fn lemma_groups_member_id_required(ctx: ServerCtx, tape: Seq<Event>)
    requires
        never_connected(tape),
    ensures
        withholds(tape::spec_conclude(server_groups::spec_groups_member_id_required(ctx, tape))),
{
}

proof fn lemma_groups_assignment_round_trips(ctx: ServerCtx, tape: Seq<Event>)
    requires
        never_connected(tape),
    ensures
        withholds(
            tape::spec_conclude(
                server_groups::spec_groups_assignment_round_trips(ctx, tape),
            ),
        ),
{
}

proof fn lemma_groups_stale_generation_fenced(ctx: ServerCtx, tape: Seq<Event>)
    requires
        never_connected(tape),
    ensures
        withholds(
            tape::spec_conclude(
                server_groups::spec_groups_stale_generation_fenced(ctx, tape),
            ),
        ),
{
}

proof fn lemma_consumer_group_epoch_advances(ctx: ServerCtx, tape: Seq<Event>)
    requires
        never_connected(tape),
    ensures
        withholds(
            tape::spec_conclude(
                server_groups::spec_consumer_group_epoch_advances(ctx, tape),
            ),
        ),
{
}

proof fn lemma_consumer_group_assigns_subscription(ctx: ServerCtx, tape: Seq<Event>)
    requires
        never_connected(tape),
    ensures
        withholds(
            tape::spec_conclude(
                server_groups::spec_consumer_group_assigns_subscription(ctx, tape),
            ),
        ),
{
}

proof fn lemma_consumer_group_omitted_subscription(ctx: ServerCtx, tape: Seq<Event>)
    requires
        never_connected(tape),
    ensures
        withholds(
            tape::spec_conclude(
                server_groups::spec_consumer_group_omitted_subscription(ctx, tape),
            ),
        ),
{
}

proof fn lemma_consumer_group_fenced_epoch(ctx: ServerCtx, tape: Seq<Event>)
    requires
        never_connected(tape),
    ensures
        withholds(tape::spec_conclude(server_groups::spec_consumer_group_fenced_epoch(ctx, tape))),
{
}

proof fn lemma_sasl_authenticate_requires_handshake(ctx: ServerCtx, tape: Seq<Event>)
    requires
        never_connected(tape),
    ensures
        withholds(
            tape::spec_conclude(
                server_sasl::spec_sasl_authenticate_requires_handshake(ctx, tape),
            ),
        ),
{
}

proof fn lemma_sasl_refusal_names_mechanisms(ctx: ServerCtx, tape: Seq<Event>)
    requires
        never_connected(tape),
    ensures
        withholds(tape::spec_conclude(server_sasl::spec_sasl_refusal_names_mechanisms(ctx, tape))),
{
}

proof fn lemma_scram_nonce_extends_client(ctx: ServerCtx, tape: Seq<Event>)
    requires
        never_connected(tape),
    ensures
        withholds(tape::spec_conclude(server_sasl::spec_scram_nonce_extends_client(ctx, tape))),
{
}

proof fn lemma_scram_iteration_floor(ctx: ServerCtx, tape: Seq<Event>)
    requires
        never_connected(tape),
    ensures
        withholds(tape::spec_conclude(server_sasl::spec_scram_iteration_floor(ctx, tape))),
{
}

proof fn lemma_scram_server_proves_itself(ctx: ServerCtx, tape: Seq<Event>)
    requires
        never_connected(tape),
    ensures
        withholds(tape::spec_conclude(server_sasl::spec_scram_server_proves_itself(ctx, tape))),
{
}

proof fn lemma_produce_acks_zero_is_silent(ctx: ServerCtx, tape: Seq<Event>)
    requires
        never_connected(tape),
    ensures
        withholds(tape::spec_conclude(server_log::spec_produce_acks_zero_is_silent(ctx, tape))),
{
}

proof fn lemma_metadata_topic_id_is_stable(ctx: ServerCtx, tape: Seq<Event>)
    requires
        never_connected(tape),
    ensures
        withholds(tape::spec_conclude(server_basic::spec_metadata_topic_id_is_stable(ctx, tape))),
{
}

proof fn lemma_produce_compressed_passthrough(ctx: ServerCtx, tape: Seq<Event>)
    requires
        never_connected(tape),
    ensures
        withholds(tape::spec_conclude(server_log::spec_produce_compressed_passthrough(ctx, tape))),
{
}

proof fn lemma_fetch_long_poll_contract(ctx: ServerCtx, tape: Seq<Event>)
    requires
        never_connected(tape),
    ensures
        withholds(tape::spec_conclude(server_log::spec_fetch_long_poll_contract(ctx, tape))),
{
}

proof fn lemma_metadata_leader_is_a_known_broker(ctx: ServerCtx, tape: Seq<Event>)
    requires
        never_connected(tape),
    ensures
        withholds(
            tape::spec_conclude(
                server_basic::spec_metadata_leader_is_a_known_broker(ctx, tape),
            ),
        ),
{
}

proof fn lemma_describe_groups_reports_members(ctx: ServerCtx, tape: Seq<Event>)
    requires
        never_connected(tape),
    ensures
        withholds(
            tape::spec_conclude(
                server_groups::spec_describe_groups_reports_members(ctx, tape),
            ),
        ),
{
}

proof fn lemma_offsets_metadata_round_trips(ctx: ServerCtx, tape: Seq<Event>)
    requires
        never_connected(tape),
    ensures
        withholds(tape::spec_conclude(server_groups::spec_offsets_metadata_round_trips(ctx, tape))),
{
}

proof fn lemma_create_topics_impossible_replication(ctx: ServerCtx, tape: Seq<Event>)
    requires
        never_connected(tape),
    ensures
        withholds(
            tape::spec_conclude(
                server_basic::spec_create_topics_impossible_replication(ctx, tape),
            ),
        ),
{
}

proof fn lemma_groups_leave_unregisters_the_member(ctx: ServerCtx, tape: Seq<Event>)
    requires
        never_connected(tape),
    ensures
        withholds(
            tape::spec_conclude(
                server_groups::spec_groups_leave_unregisters_the_member(ctx, tape),
            ),
        ),
{
}

proof fn lemma_list_offsets_by_timestamp(ctx: ServerCtx, tape: Seq<Event>)
    requires
        never_connected(tape),
    ensures
        withholds(tape::spec_conclude(server_log::spec_list_offsets_by_timestamp(ctx, tape))),
{
}

proof fn lemma_delete_topics_removes_the_topic(ctx: ServerCtx, tape: Seq<Event>)
    requires
        never_connected(tape),
    ensures
        withholds(
            tape::spec_conclude(
                server_basic::spec_delete_topics_removes_the_topic(ctx, tape),
            ),
        ),
{
}

proof fn lemma_produce_idempotent_retry_is_deduped(ctx: ServerCtx, tape: Seq<Event>)
    requires
        never_connected(tape),
    ensures
        withholds(
            tape::spec_conclude(
                server_txn::spec_produce_idempotent_retry_is_deduped(ctx, tape),
            ),
        ),
{
}

proof fn lemma_produce_sequence_gap_is_refused(ctx: ServerCtx, tape: Seq<Event>)
    requires
        never_connected(tape),
    ensures
        withholds(tape::spec_conclude(server_txn::spec_produce_sequence_gap_is_refused(ctx, tape))),
{
}

proof fn lemma_txn_init_bumps_the_epoch(ctx: ServerCtx, tape: Seq<Event>)
    requires
        never_connected(tape),
    ensures
        withholds(tape::spec_conclude(server_txn::spec_txn_init_bumps_the_epoch(ctx, tape))),
{
}

proof fn lemma_txn_stale_epoch_is_fenced(ctx: ServerCtx, tape: Seq<Event>)
    requires
        never_connected(tape),
    ensures
        withholds(tape::spec_conclude(server_txn::spec_txn_stale_epoch_is_fenced(ctx, tape))),
{
}

proof fn lemma_txn_unannounced_write_stays_in_the_transaction(ctx: ServerCtx, tape: Seq<Event>)
    requires
        never_connected(tape),
    ensures
        withholds(
            tape::spec_conclude(
                server_txn::spec_txn_unannounced_write_stays_in_the_transaction(ctx, tape),
            ),
        ),
{
}

proof fn lemma_txn_open_transaction_holds_the_stable_offset(ctx: ServerCtx, tape: Seq<Event>)
    requires
        never_connected(tape),
    ensures
        withholds(
            tape::spec_conclude(
                server_txn::spec_txn_open_transaction_holds_the_stable_offset(ctx, tape),
            ),
        ),
{
}

proof fn lemma_txn_fenced_producer_cannot_produce(ctx: ServerCtx, tape: Seq<Event>)
    requires
        never_connected(tape),
    ensures
        withholds(
            tape::spec_conclude(
                server_txn::spec_txn_fenced_producer_cannot_produce(ctx, tape),
            ),
        ),
{
}

proof fn lemma_txn_commit_is_visible_to_readers(ctx: ServerCtx, tape: Seq<Event>)
    requires
        never_connected(tape),
    ensures
        withholds(
            tape::spec_conclude(
                server_txn::spec_txn_commit_is_visible_to_readers(ctx, tape),
            ),
        ),
{
}

proof fn lemma_txn_offsets_wait_for_the_commit(ctx: ServerCtx, tape: Seq<Event>)
    requires
        never_connected(tape),
    ensures
        withholds(tape::spec_conclude(server_txn::spec_txn_offsets_wait_for_the_commit(ctx, tape))),
{
}

proof fn lemma_txn_abort_is_reported_to_readers(ctx: ServerCtx, tape: Seq<Event>)
    requires
        never_connected(tape),
    ensures
        withholds(
            tape::spec_conclude(
                server_txn::spec_txn_abort_is_reported_to_readers(ctx, tape),
            ),
        ),
{
}

proof fn lemma_cluster_brokers_agree_on_the_leader(ctx: ServerCtx, tape: Seq<Event>)
    requires
        never_connected(tape),
    ensures
        withholds(
            tape::spec_conclude(
                server_cluster::spec_cluster_brokers_agree_on_the_leader(ctx, tape),
            ),
        ),
{
}

proof fn lemma_cluster_brokers_agree_on_the_coordinator(ctx: ServerCtx, tape: Seq<Event>)
    requires
        never_connected(tape),
    ensures
        withholds(
            tape::spec_conclude(
                server_cluster::spec_cluster_brokers_agree_on_the_coordinator(ctx, tape),
            ),
        ),
{
}

proof fn lemma_cluster_replicas_span_brokers(ctx: ServerCtx, tape: Seq<Event>)
    requires
        never_connected(tape),
    ensures
        withholds(
            tape::spec_conclude(
                server_cluster::spec_cluster_replicas_span_brokers(ctx, tape),
            ),
        ),
{
}

proof fn lemma_cluster_writes_go_to_the_leader(ctx: ServerCtx, tape: Seq<Event>)
    requires
        never_connected(tape),
    ensures
        withholds(
            tape::spec_conclude(
                server_cluster::spec_cluster_writes_go_to_the_leader(ctx, tape),
            ),
        ),
{
}

proof fn lemma_cluster_group_offsets_need_the_coordinator(ctx: ServerCtx, tape: Seq<Event>)
    requires
        never_connected(tape),
    ensures
        withholds(
            tape::spec_conclude(
                server_cluster::spec_cluster_group_offsets_need_the_coordinator(ctx, tape),
            ),
        ),
{
}

proof fn lemma_cluster_leadership_moves_when_a_broker_stops(ctx: ServerCtx, tape: Seq<Event>)
    requires
        never_connected(tape),
    ensures
        withholds(
            tape::spec_conclude(
                server_cluster::spec_cluster_leadership_moves_when_a_broker_stops(ctx, tape),
            ),
        ),
{
}

proof fn lemma_cluster_committed_offsets_outlive_the_coordinator(ctx: ServerCtx, tape: Seq<Event>)
    requires
        never_connected(tape),
    ensures
        withholds(
            tape::spec_conclude(
                server_cluster::spec_cluster_committed_offsets_outlive_the_coordinator(ctx, tape),
            ),
        ),
{
}

proof fn lemma_versions_advertised_are_speakable(ctx: ServerCtx, tape: Seq<Event>)
    requires
        never_connected(tape),
    ensures
        withholds(
            tape::spec_conclude(
                server_versions::spec_versions_advertised_are_speakable(ctx, tape),
            ),
        ),
{
}

/// No check blames a subject to which no connection could be opened, and none
/// clears it: what could not be asked is no evidence either way.
pub proof fn law_unreached_subject_is_not_blamed(
    check: ServerCheck,
    ctx: ServerCtx,
    tape: Seq<Event>,
)
    requires
        never_connected(tape),
    ensures
        !blames(tape::spec_conclude(check.spec_flow(ctx, tape))),
        !clears(tape::spec_conclude(check.spec_flow(ctx, tape))),
{
    match check {
        ServerCheck::V0Basic => lemma_v0_basic(ctx, tape),
        ServerCheck::CorrelationEcho => lemma_correlation_echo(ctx, tape),
        ServerCheck::FlexibleV3 => lemma_flexible_v3(ctx, tape),
        ServerCheck::UnsupportedVersion => lemma_unsupported_version(ctx, tape),
        ServerCheck::MetadataBasic => lemma_metadata_basic(ctx, tape),
        ServerCheck::MetadataFlexibleHeader => lemma_metadata_flexible_header(ctx, tape),
        ServerCheck::ProduceBasic => lemma_produce_basic(ctx, tape),
        ServerCheck::FetchBatchIntegrity => lemma_fetch_batch_integrity(ctx, tape),
        ServerCheck::ProduceTopicId => lemma_produce_topic_id(ctx, tape),
        ServerCheck::FetchTopicId => lemma_fetch_topic_id(ctx, tape),
        ServerCheck::ListOffsetsEarliestLatest => lemma_list_offsets_earliest_latest(ctx, tape),
        ServerCheck::FindCoordinatorGroup => lemma_find_coordinator_group(ctx, tape),
        ServerCheck::OffsetsCommitFetchRoundtrip => lemma_offsets_commit_fetch_roundtrip(ctx, tape),
        ServerCheck::OffsetsUnsetIsSentinel => lemma_offsets_unset_is_sentinel(ctx, tape),
        ServerCheck::FetchOffsetOutOfRange => lemma_fetch_offset_out_of_range(ctx, tape),
        ServerCheck::MetadataUnknownTopic => lemma_metadata_unknown_topic(ctx, tape),
        ServerCheck::CreateTopicsDuplicate => lemma_create_topics_duplicate(ctx, tape),
        ServerCheck::CreateTopicsValidateOnly => lemma_create_topics_validate_only(ctx, tape),
        ServerCheck::GroupsMemberIdRequired => lemma_groups_member_id_required(ctx, tape),
        ServerCheck::GroupsAssignmentRoundTrips => lemma_groups_assignment_round_trips(ctx, tape),
        ServerCheck::GroupsStaleGenerationFenced => lemma_groups_stale_generation_fenced(ctx, tape),
        ServerCheck::ConsumerGroupEpochAdvances => lemma_consumer_group_epoch_advances(ctx, tape),
        ServerCheck::ConsumerGroupAssignsSubscription => {
            lemma_consumer_group_assigns_subscription(ctx, tape)
        },
        ServerCheck::ConsumerGroupOmittedSubscription => {
            lemma_consumer_group_omitted_subscription(ctx, tape)
        },
        ServerCheck::ConsumerGroupFencedEpoch => lemma_consumer_group_fenced_epoch(ctx, tape),
        ServerCheck::SaslAuthenticateRequiresHandshake => {
            lemma_sasl_authenticate_requires_handshake(ctx, tape)
        },
        ServerCheck::SaslRefusalNamesMechanisms => lemma_sasl_refusal_names_mechanisms(ctx, tape),
        ServerCheck::ScramNonceExtendsClient => lemma_scram_nonce_extends_client(ctx, tape),
        ServerCheck::ScramIterationFloor => lemma_scram_iteration_floor(ctx, tape),
        ServerCheck::ScramServerProvesItself => lemma_scram_server_proves_itself(ctx, tape),
        ServerCheck::ProduceAcksZeroIsSilent => lemma_produce_acks_zero_is_silent(ctx, tape),
        ServerCheck::MetadataTopicIdIsStable => lemma_metadata_topic_id_is_stable(ctx, tape),
        ServerCheck::ProduceCompressedPassthrough => {
            lemma_produce_compressed_passthrough(ctx, tape)
        },
        ServerCheck::FetchLongPollContract => lemma_fetch_long_poll_contract(ctx, tape),
        ServerCheck::MetadataLeaderIsAKnownBroker => {
            lemma_metadata_leader_is_a_known_broker(ctx, tape)
        },
        ServerCheck::DescribeGroupsReportsMembers => {
            lemma_describe_groups_reports_members(ctx, tape)
        },
        ServerCheck::OffsetsMetadataRoundTrips => lemma_offsets_metadata_round_trips(ctx, tape),
        ServerCheck::CreateTopicsImpossibleReplication => {
            lemma_create_topics_impossible_replication(ctx, tape)
        },
        ServerCheck::GroupsLeaveUnregistersTheMember => {
            lemma_groups_leave_unregisters_the_member(ctx, tape)
        },
        ServerCheck::ListOffsetsByTimestamp => lemma_list_offsets_by_timestamp(ctx, tape),
        ServerCheck::DeleteTopicsRemovesTheTopic => {
            lemma_delete_topics_removes_the_topic(ctx, tape)
        },
        ServerCheck::ProduceIdempotentRetryIsDeduped => {
            lemma_produce_idempotent_retry_is_deduped(ctx, tape)
        },
        ServerCheck::ProduceSequenceGapIsRefused => {
            lemma_produce_sequence_gap_is_refused(ctx, tape)
        },
        ServerCheck::TxnInitBumpsTheEpoch => lemma_txn_init_bumps_the_epoch(ctx, tape),
        ServerCheck::TxnStaleEpochIsFenced => lemma_txn_stale_epoch_is_fenced(ctx, tape),
        ServerCheck::TxnUnannouncedWriteStaysInTheTransaction => {
            lemma_txn_unannounced_write_stays_in_the_transaction(ctx, tape)
        },
        ServerCheck::TxnOpenTransactionHoldsTheStableOffset => {
            lemma_txn_open_transaction_holds_the_stable_offset(ctx, tape)
        },
        ServerCheck::TxnFencedProducerCannotProduce => {
            lemma_txn_fenced_producer_cannot_produce(ctx, tape)
        },
        ServerCheck::TxnCommitIsVisibleToReaders => {
            lemma_txn_commit_is_visible_to_readers(ctx, tape)
        },
        ServerCheck::TxnOffsetsWaitForTheCommit => lemma_txn_offsets_wait_for_the_commit(ctx, tape),
        ServerCheck::TxnAbortIsReportedToReaders => {
            lemma_txn_abort_is_reported_to_readers(ctx, tape)
        },
        ServerCheck::ClusterBrokersAgreeOnTheLeader => {
            lemma_cluster_brokers_agree_on_the_leader(ctx, tape)
        },
        ServerCheck::ClusterBrokersAgreeOnTheCoordinator => {
            lemma_cluster_brokers_agree_on_the_coordinator(ctx, tape)
        },
        ServerCheck::ClusterReplicasSpanBrokers => lemma_cluster_replicas_span_brokers(ctx, tape),
        ServerCheck::ClusterWritesGoToTheLeader => lemma_cluster_writes_go_to_the_leader(ctx, tape),
        ServerCheck::ClusterGroupOffsetsNeedTheCoordinator => {
            lemma_cluster_group_offsets_need_the_coordinator(ctx, tape)
        },
        ServerCheck::ClusterLeadershipMovesWhenABrokerStops => {
            lemma_cluster_leadership_moves_when_a_broker_stops(ctx, tape)
        },
        ServerCheck::ClusterCommittedOffsetsOutliveTheCoordinator => {
            lemma_cluster_committed_offsets_outlive_the_coordinator(ctx, tape)
        },
        ServerCheck::VersionsAdvertisedAreSpeakable => {
            lemma_versions_advertised_are_speakable(ctx, tape)
        },
    }
}

} // verus!

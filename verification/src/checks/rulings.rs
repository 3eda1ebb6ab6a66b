//! What a check comes to once it has its answers: a pass or a failure, and
//! nothing between.

use vstd::prelude::*;

use crate::checks::calibration;
use crate::checks::ctx;
use crate::checks::ctx::ServerCtx;
use crate::checks::flows;
use crate::checks::flows::{Addressing, ProducedView};
use crate::checks::group_flows;
use crate::checks::log_flows;
use crate::checks::server::ServerCheck;
use crate::checks::server_basic;
use crate::checks::server_cluster;
use crate::checks::server_cluster::NodeView;
use crate::checks::server_groups;
use crate::checks::server_txn;
use crate::checks::tape::{ErrorView, Event, HaltView};
use crate::checks::txn_flows;
use crate::checks::txn_flows::{Claim, TxnVersions};
use crate::checks::verdicts;
use crate::checks::verdicts_basic;
use crate::checks::verdicts_log;
use crate::checks::verdicts_txn;
use crate::wire;
use crate::wire::{
    ConsumerGroupAnswer, CreatedRow, DescribedRow, ErrorCode, FetchedRow, InitProducerIdAnswer,
    JoinGroupAnswer, MetadataAnswer, PartitionRow, ProducedRow, Response, SyncGroupAnswer,
    TxnActorOf,
};
use crate::VerdictView;

verus! {

/// A stale generation, once the member leads its group.
pub proof fn law_stale_generation_is_ruled(
    ctx: ServerCtx,
    tape: Seq<Event>,
    versions: (i16, i16),
    conn: usize,
    found: int,
    member_id: Seq<char>,
    generation: i32,
    at: int,
    code: ErrorCode,
)
    requires
        server_groups::spec_group_versions(ctx, 0) == Ok::<(i16, i16), HaltView>(versions),
        ctx.spec_version(
            0,
            "Heartbeat"@,
            wire::HEARTBEAT,
            ctx.schema.heartbeat.min,
            ctx.schema.heartbeat.max,
        ) is Ok,
        group_flows::spec_coordinator_conn(ctx, tape, 0, ctx.spec_check_group("fencing"@)) == Ok::<
            (usize, int),
            HaltView,
        >((conn, found)),
        group_flows::spec_join_as_leader(
            tape,
            found,
            conn,
            versions.0,
            ctx.spec_check_group("fencing"@),
            140,
        ) == Ok::<((Seq<char>, i32), int), HaltView>(((member_id, generation), at)),
        verdicts::answer_at(tape, at) == Some(Response::Code(code)),
    ensures
        verdicts::is_ruled(
            ServerCheck::GroupsStaleGenerationFenced.spec_flow(ctx, tape),
            code.code == 22,
        ),
{
}

/// A member that leaves, once it leads its group.
pub proof fn law_departure_is_ruled(
    ctx: ServerCtx,
    tape: Seq<Event>,
    versions: (i16, i16),
    conn: usize,
    found: int,
    member_id: Seq<char>,
    generation: i32,
    at: int,
    synced: SyncGroupAnswer,
    before: ErrorCode,
    left: ErrorCode,
    after: ErrorCode,
)
    requires
        server_groups::spec_group_versions(ctx, 0) == Ok::<(i16, i16), HaltView>(versions),
        ctx.spec_version(
            0,
            "LeaveGroup"@,
            wire::LEAVE_GROUP,
            ctx.schema.leave_group.min,
            ctx.schema.leave_group.max,
        ) is Ok,
        ctx.spec_version(
            0,
            "Heartbeat"@,
            wire::HEARTBEAT,
            ctx.schema.heartbeat.min,
            ctx.schema.heartbeat.max,
        ) is Ok,
        group_flows::spec_coordinator_conn(ctx, tape, 0, ctx.spec_check_group("leaving"@)) == Ok::<
            (usize, int),
            HaltView,
        >((conn, found)),
        group_flows::spec_join_as_leader(
            tape,
            found,
            conn,
            versions.0,
            ctx.spec_check_group("leaving"@),
            850,
        ) == Ok::<((Seq<char>, i32), int), HaltView>(((member_id, generation), at)),
        verdicts::answer_at(tape, at) == Some(Response::SyncGroup(synced)),
        verdicts::answer_at(tape, at + 1) == Some(Response::Code(before)),
        verdicts::answer_at(tape, at + 2) == Some(Response::Code(left)),
        verdicts::answer_at(tape, at + 3) == Some(Response::Code(after)),
    ensures
        verdicts::is_ruled(
            ServerCheck::GroupsLeaveUnregistersTheMember.spec_flow(ctx, tape),
            synced.error.code == 0 && before.code == 0 && left.code == 0 && after.code == 25,
        ),
{
}

/// An assignment that is handed back, once the member leads its group.
pub proof fn law_sync_is_ruled(
    ctx: ServerCtx,
    tape: Seq<Event>,
    versions: (i16, i16),
    conn: usize,
    found: int,
    member_id: Seq<char>,
    generation: i32,
    at: int,
    answer: SyncGroupAnswer,
)
    requires
        server_groups::spec_group_versions(ctx, 0) == Ok::<(i16, i16), HaltView>(versions),
        group_flows::spec_coordinator_conn(ctx, tape, 0, ctx.spec_check_group("assignment"@))
            == Ok::<(usize, int), HaltView>((conn, found)),
        group_flows::spec_join_as_leader(
            tape,
            found,
            conn,
            versions.0,
            ctx.spec_check_group("assignment"@),
            130,
        ) == Ok::<((Seq<char>, i32), int), HaltView>(((member_id, generation), at)),
        verdicts::answer_at(tape, at) == Some(Response::SyncGroup(answer)),
    ensures
        verdicts::is_ruled(
            ServerCheck::GroupsAssignmentRoundTrips.spec_flow(ctx, tape),
            answer.error.code == 0 && answer.assignment@ == seq![
                0x00u8,
                0x03,
                0xff,
                0x7f,
                0x00,
                0xde,
                0xad,
                0xbe,
                0xef,
            ],
        ),
{
}

/// A group that is described, once its member has synced: what the check comes
/// to is what the answer deserves.
pub proof fn law_description_is_ruled(
    ctx: ServerCtx,
    tape: Seq<Event>,
    versions: (i16, i16),
    conn: usize,
    found: int,
    member_id: Seq<char>,
    generation: i32,
    at: int,
    synced: SyncGroupAnswer,
    rows: Vec<DescribedRow>,
)
    requires
        server_groups::spec_group_versions(ctx, 0) == Ok::<(i16, i16), HaltView>(versions),
        ctx.spec_version(
            0,
            "DescribeGroups"@,
            wire::DESCRIBE_GROUPS,
            ctx.schema.describe_groups.min,
            ctx.schema.describe_groups.max,
        ) is Ok,
        group_flows::spec_coordinator_conn(ctx, tape, 0, ctx.spec_check_group("described"@))
            == Ok::<(usize, int), HaltView>((conn, found)),
        group_flows::spec_join_as_leader(
            tape,
            found,
            conn,
            versions.0,
            ctx.spec_check_group("described"@),
            920,
        ) == Ok::<((Seq<char>, i32), int), HaltView>(((member_id, generation), at)),
        verdicts::answer_at(tape, at) == Some(Response::SyncGroup(synced)),
        verdicts::answer_at(tape, at + 1) == Some(Response::DescribeGroups(rows)),
    ensures
        verdicts::is_ruled(
            ServerCheck::DescribeGroupsReportsMembers.spec_flow(ctx, tape),
            synced.error.code == 0 && server_groups::spec_judge_described(
                rows@,
                ctx.spec_check_group("described"@),
                member_id,
            ) is Pass,
        ),
{
}

/// A member without a name, and its coming back with the one it was given.
pub proof fn law_member_id_is_ruled(
    ctx: ServerCtx,
    tape: Seq<Event>,
    conn: usize,
    at: int,
    refused: JoinGroupAnswer,
    second: JoinGroupAnswer,
)
    requires
        ctx.spec_version(
            0,
            "JoinGroup"@,
            wire::JOIN_GROUP,
            wire::JOIN_GROUP_MEMBER_ID_REQUIRED,
            ctx.schema.join_group.max,
        ) is Ok,
        group_flows::spec_coordinator_conn(ctx, tape, 0, ctx.spec_check_group("memberid"@)) == Ok::<
            (usize, int),
            HaltView,
        >((conn, at)),
        verdicts::answer_at(tape, at) == Some(Response::JoinGroup(refused)),
        verdicts::answer_at(tape, at + 1) == Some(Response::JoinGroup(second)),
    ensures
        verdicts::is_ruled(
            ServerCheck::GroupsMemberIdRequired.spec_flow(ctx, tape),
            refused.error.code == 79 && refused.member_id@.len() > 0 && second.error.code == 0,
        ),
{
}

/// A member that introduces itself, and one whose epoch was never issued.
pub proof fn law_epochs_are_ruled(
    ctx: ServerCtx,
    tape: Seq<Event>,
    conn: usize,
    at: int,
    nanos: u128,
    joined: ConsumerGroupAnswer,
    next: ConsumerGroupAnswer,
    last: ConsumerGroupAnswer,
)
    requires
        server_groups::spec_consumer_group_version(ctx, 0) is Ok,
        0 <= at,
        at + 3 < tape.len(),
        tape[at] == Event::Stamped(nanos),
        verdicts::answer_at(tape, at + 1) == Some(Response::ConsumerGroup(joined)),
        verdicts::answer_at(tape, at + 2) == Some(Response::ConsumerGroup(next)),
        verdicts::answer_at(tape, at + 3) == Some(Response::ConsumerGroup(last)),
    ensures
        group_flows::spec_coordinator_conn(ctx, tape, 0, ctx.spec_check_group("epoch"@)) == Ok::<
            (usize, int),
            HaltView,
        >((conn, at)) ==> verdicts::is_ruled(
            ServerCheck::ConsumerGroupEpochAdvances.spec_flow(ctx, tape),
            joined.error.code == 0 && joined.member_epoch != 0 && joined.heartbeat_interval_ms > 0
                && (joined.member_id matches Some(id) && id@.len() > 0),
        ),
        group_flows::spec_coordinator_conn(ctx, tape, 0, ctx.spec_check_group("cgfence"@)) == Ok::<
            (usize, int),
            HaltView,
        >((conn, at)) ==> verdicts::is_ruled(
            ServerCheck::ConsumerGroupFencedEpoch.spec_flow(ctx, tape),
            joined.error.code == 0 && next.error.code == 110,
        ),
{
}

/// A gap in the sequence, once the producer has its identity.
#[verifier::rlimit(60)]
#[verifier::spinoff_prover]
pub proof fn law_gap_is_ruled(
    ctx: ServerCtx,
    tape: Seq<Event>,
    versions: (i16, i16),
    produced: ProducedView,
    written: int,
    identity: InitProducerIdAnswer,
    at: int,
    first: ProducedRow,
    second: ProducedRow,
)
    requires
        server_txn::spec_idempotence_versions(ctx, 0) == Ok::<(i16, i16), HaltView>(versions),
        flows::spec_produce_flow(ctx, tape, 0, "seqgap"@, Addressing::Name) == Ok::<
            (ProducedView, int),
            HaltView,
        >((produced, written)),
        txn_flows::spec_init_idempotent(
            ctx,
            tape,
            written,
            produced.conn,
            versions.0,
            750,
            0,
            ""@,
        ) == Ok::<(InitProducerIdAnswer, int), HaltView>((identity, at)),
        0 <= at,
        at + 3 < tape.len(),
        tape[at] is Encoded,
        verdicts::written_at(tape, at + 1) == Some(first),
        tape[at + 2] is Encoded,
        verdicts::written_at(tape, at + 3) == Some(second),
    ensures
        verdicts::is_ruled(
            ServerCheck::ProduceSequenceGapIsRefused.spec_flow(ctx, tape),
            first.error.code == 0 && second.error.code == 45,
        ),
{
}

/// A batch that is sent twice, once the producer has its identity.
#[verifier::rlimit(60)]
#[verifier::spinoff_prover]
pub proof fn law_retry_is_ruled(
    ctx: ServerCtx,
    tape: Seq<Event>,
    versions: (i16, i16),
    produced: ProducedView,
    written: int,
    identity: InitProducerIdAnswer,
    at: int,
    before: i64,
    first: ProducedRow,
    retry: ProducedRow,
    after: i64,
)
    requires
        server_txn::spec_idempotence_versions(ctx, 0) == Ok::<(i16, i16), HaltView>(versions),
        flows::spec_produce_flow(ctx, tape, 0, "dedupe"@, Addressing::Name) == Ok::<
            (ProducedView, int),
            HaltView,
        >((produced, written)),
        txn_flows::spec_init_idempotent(
            ctx,
            tape,
            written,
            produced.conn,
            versions.0,
            700,
            0,
            ""@,
        ) == Ok::<(InitProducerIdAnswer, int), HaltView>((identity, at)),
        log_flows::spec_log_span(ctx, tape, at, produced.conn, produced.topic, 710) == Ok::<
            (i64, int),
            HaltView,
        >((before, at + 2)),
        0 <= at,
        at + 5 < tape.len(),
        tape[at + 2] is Encoded,
        verdicts::written_at(tape, at + 3) == Some(first),
        tape[at + 4] is Encoded,
        verdicts::written_at(tape, at + 5) == Some(retry),
        log_flows::spec_log_span(ctx, tape, at + 6, produced.conn, produced.topic, 740) == Ok::<
            (i64, int),
            HaltView,
        >((after, at + 8)),
    ensures
        verdicts::is_ruled(
            ServerCheck::ProduceIdempotentRetryIsDeduped.spec_flow(ctx, tape),
            first.error.code == 0 && after.wrapping_sub(before) == 2,
        ),
{
}

/// The span of a log is its end less its start, as the two lookups give them.
pub proof fn law_spans_are_looked_up(
    ctx: ServerCtx,
    tape: Seq<Event>,
    at: int,
    conn: usize,
    topic: Seq<char>,
    correlation: i32,
)
    ensures
        log_flows::spec_log_span(ctx, tape, at, conn, topic, correlation) matches Ok((span, to))
            ==> {
            &&& to == at + 2
            &&& verdicts_log::offset_at(tape, at) matches Some(earliest) && (
            verdicts_log::offset_at(tape, at + 1) matches Some(latest) && span
                == latest.wrapping_sub(earliest))
        },
{
}

/// A write at a superseded epoch, and what the suite tidies up after it.
pub proof fn law_zombie_is_ruled(
    tape: Seq<Event>,
    at: int,
    leader: usize,
    versions: TxnVersions,
    zombie: TxnActorOf<Seq<char>>,
    live: TxnActorOf<Seq<char>>,
    successor: usize,
    topic: Seq<char>,
    row: ProducedRow,
    tidied: ErrorCode,
)
    requires
        0 <= at,
        at + 2 < tape.len(),
        tape[at] is Encoded,
        verdicts::written_at(tape, at + 1) == Some(row),
        verdicts::answer_at(tape, at + 2) == Some(Response::Code(tidied)),
    ensures
        verdicts::is_ruled(
            server_txn::spec_zombie_write(
                tape,
                at,
                leader,
                versions,
                zombie,
                live,
                successor,
                topic,
            ),
            row.error.code == 90 || row.error.code == 47,
        ),
{
}

/// An identity that is claimed twice.
pub proof fn law_reclaim_is_ruled(
    ctx: ServerCtx,
    tape: Seq<Event>,
    versions: TxnVersions,
    id: Seq<char>,
    named: int,
    first: Claim,
    once: int,
    second: Claim,
    to: int,
)
    requires
        txn_flows::spec_txn_versions(ctx, 0) == Ok::<TxnVersions, HaltView>(versions),
        ctx::spec_fresh_txn_id(ctx, tape, 0, "epoch"@) == Ok::<(Seq<char>, int), HaltView>(
            (id, named),
        ),
        txn_flows::spec_init_producer_id(ctx, tape, named, versions.init, id, 400) == Ok::<
            (Claim, int),
            HaltView,
        >((first, once)),
        txn_flows::spec_init_producer_id(ctx, tape, once, versions.init, id, 420) == Ok::<
            (Claim, int),
            HaltView,
        >((second, to)),
    ensures
        verdicts::is_ruled(
            ServerCheck::TxnInitBumpsTheEpoch.spec_flow(ctx, tape),
            second.producer_id == first.producer_id && second.producer_epoch
                > first.producer_epoch,
        ),
{
}

/// An open transaction, however its cleaning up was answered.
pub proof fn law_open_transaction_is_ruled(row: FetchedRow, tidied: ErrorCode, at: int)
    ensures
        verdicts::is_ruled(
            server_txn::spec_clean_up(Ok((tidied, at)), row),
            row.last_stable_offset < row.high_watermark,
        ),
        row.last_stable_offset >= row.high_watermark ==> forall|error: ErrorView|
            verdicts::is_ruled(
                #[trigger] server_txn::spec_clean_up(Err(HaltView::Broke(error, at)), row),
                false,
            ),
{
}

/// An abort, once its transaction was resolved or was not.
pub proof fn law_abort_is_ruled(
    ctx: ServerCtx,
    tape: Seq<Event>,
    at: int,
    conn: usize,
    version: i16,
    topic: Seq<char>,
    first_offset: i64,
    producer_id: i64,
    context: Seq<char>,
    base: i32,
    data: Option<FetchedRow>,
    to: int,
)
    requires
        txn_flows::spec_await_resolved(
            ctx,
            tape,
            at,
            conn,
            version,
            topic,
            first_offset,
            base,
            0,
            None,
        ) == Ok::<(Option<FetchedRow>, int), HaltView>((data, to)),
    ensures
        ({
            let flow = txn_flows::spec_await_abort_marker(
                ctx,
                tape,
                at,
                conn,
                version,
                topic,
                first_offset,
                producer_id,
                context,
                base,
            );
            if data matches Some(row) && row.last_stable_offset > first_offset
                && verdicts_txn::drops(row, producer_id) {
                flow == Ok::<((), int), HaltView>(((), to))
            } else {
                flow matches Err(HaltView::Stop(VerdictView::Fail(_), end)) && end == to
            }
        }),
{
    verdicts_txn::law_aborts_are_judged(
        data,
        first_offset,
        producer_id,
        context,
        ctx.config.recovery_budget.nanos,
    );
}

/// A topic that is created twice, and one that is validated first.
pub proof fn law_creations_are_ruled(
    ctx: ServerCtx,
    tape: Seq<Event>,
    version: i16,
    conn: usize,
    topic: Seq<char>,
    at: int,
    first: CreatedRow,
    once: int,
    second: CreatedRow,
    to: int,
)
    ensures
        server_basic::spec_creating(ctx, tape, "dup"@) == Ok::<
            ((i16, usize, Seq<char>), int),
            HaltView,
        >(((version, conn, topic), at)) && flows::spec_create_topic(
            ctx,
            tape,
            at,
            conn,
            version,
            topic,
            false,
            96,
        ) == Ok::<(CreatedRow, int), HaltView>((first, once)) && flows::spec_create_topic(
            ctx,
            tape,
            once,
            conn,
            version,
            topic,
            false,
            97,
        ) == Ok::<(CreatedRow, int), HaltView>((second, to)) ==> verdicts::is_ruled(
            ServerCheck::CreateTopicsDuplicate.spec_flow(ctx, tape),
            first.error.code == 0 && second.error.code == 36,
        ),
        server_basic::spec_creating(ctx, tape, "validate"@) == Ok::<
            ((i16, usize, Seq<char>), int),
            HaltView,
        >(((version, conn, topic), at)) && flows::spec_create_topic(
            ctx,
            tape,
            at,
            conn,
            version,
            topic,
            true,
            98,
        ) == Ok::<(CreatedRow, int), HaltView>((first, once)) && flows::spec_create_topic(
            ctx,
            tape,
            once,
            conn,
            version,
            topic,
            false,
            99,
        ) == Ok::<(CreatedRow, int), HaltView>((second, to)) ==> verdicts::is_ruled(
            ServerCheck::CreateTopicsValidateOnly.spec_flow(ctx, tape),
            first.error.code == 0 && second.error.code == 0,
        ),
{
}

/// A number of replicas that cannot be had.
pub proof fn law_overreplication_is_ruled(
    ctx: ServerCtx,
    tape: Seq<Event>,
    version: i16,
    conn: usize,
    topic: Seq<char>,
    at: int,
    rows: Vec<CreatedRow>,
)
    requires
        server_basic::spec_creating(ctx, tape, "overreplicated"@) == Ok::<
            ((i16, usize, Seq<char>), int),
            HaltView,
        >(((version, conn, topic), at)),
        verdicts::answer_at(tape, at) == Some(Response::CreateTopics(rows)),
    ensures
        verdicts::is_ruled(
            ServerCheck::CreateTopicsImpossibleReplication.spec_flow(ctx, tape),
            rows@.len() > 0 && rows@[0].error.code != 0,
        ),
{
}

/// A topic that does not exist.
pub proof fn law_unknown_topic_is_ruled(
    ctx: ServerCtx,
    tape: Seq<Event>,
    topic: Seq<char>,
    conn: usize,
    answer: MetadataAnswer,
    j: int,
)
    requires
        ctx.spec_version(0, "Metadata"@, wire::METADATA, 1, ctx.schema.metadata.max) is Ok,
        ctx::spec_fresh_topic(ctx, tape, 0, "nosuch"@) == Ok::<(Seq<char>, int), HaltView>(
            (topic, 1),
        ),
        tape.len() == 3,
        tape[1] == Event::Connected(conn),
        verdicts::answer_at(tape, 2) == Some(Response::Metadata(answer)),
    ensures
        verdicts_basic::names(answer.topics@, topic, j) ==> verdicts::is_ruled(
            ServerCheck::MetadataUnknownTopic.spec_flow(ctx, tape),
            answer.topics@[j].error.code == 3,
        ),
        verdicts_basic::names_none(answer.topics@, topic) ==> verdicts::is_ruled(
            ServerCheck::MetadataUnknownTopic.spec_flow(ctx, tape),
            false,
        ),
{
    verdicts_basic::law_unknown_topics_are_judged(answer, topic, j);
}

/// The brokers of a cluster: once they have answered, the check comes to what
/// the answers deserve, whichever it is.
#[verifier::rlimit(60)]
#[verifier::spinoff_prover]
pub proof fn law_agreement_is_ruled(
    ctx: ServerCtx,
    tape: Seq<Event>,
    nodes: Seq<NodeView>,
    at: int,
    version: i16,
    produced: ProducedView,
    written: int,
    answers: Seq<(i32, i32)>,
    to: int,
)
    requires
        server_cluster::spec_cluster_nodes(ctx, tape) == Ok::<(Seq<NodeView>, int), HaltView>(
            (nodes, at),
        ),
        ctx.spec_version(at, "Metadata"@, wire::METADATA, 1, ctx.schema.metadata.max) == Ok::<
            i16,
            HaltView,
        >(version),
        flows::spec_produce_flow(ctx, tape, at, "agreeleader"@, Addressing::Name) == Ok::<
            (ProducedView, int),
            HaltView,
        >((produced, written)),
        server_cluster::spec_leader_answers(
            ctx,
            tape,
            written,
            version,
            produced.topic,
            nodes,
            0,
            Seq::empty(),
        ) == Ok::<(Seq<(i32, i32)>, int), HaltView>((answers, to)),
    ensures
        verdicts::ended(ServerCheck::ClusterBrokersAgreeOnTheLeader.spec_flow(ctx, tape)) == Some(
            (server_cluster::spec_judge_agreement(answers, produced.topic), to),
        ),
{
}

/// A write that went astray, once the leader is known and another broker is.
#[verifier::rlimit(60)]
#[verifier::spinoff_prover]
pub proof fn law_stray_write_is_ruled(
    ctx: ServerCtx,
    tape: Seq<Event>,
    nodes: Seq<NodeView>,
    met: int,
    produced: ProducedView,
    at: int,
    row: PartitionRow,
    version: i16,
    conn: usize,
    other: usize,
    written: ProducedRow,
    j: int,
)
    requires
        server_cluster::spec_cluster_nodes(ctx, tape) == Ok::<(Seq<NodeView>, int), HaltView>(
            (nodes, met),
        ),
        ctx.spec_version(
            met,
            "Produce"@,
            wire::PRODUCE,
            ctx.schema.produce.min,
            flows::PRODUCE_NAME_MAX,
        ) is Ok,
        ctx.spec_version(met, "Metadata"@, wire::METADATA, 1, ctx.schema.metadata.max) == Ok::<
            i16,
            HaltView,
        >(version),
        flows::spec_produce_flow(ctx, tape, met, "notleader"@, Addressing::Name) == Ok::<
            (ProducedView, int),
            HaltView,
        >((produced, at)),
        0 <= at,
        at + 4 < tape.len(),
        tape[at] == Event::Connected(conn),
        server_cluster::spec_leadership_at(
            tape,
            at + 1,
            conn,
            version,
            produced.topic,
            1_470,
        ) == Ok::<(Option<PartitionRow>, int), HaltView>((Some(row), at + 2)),
        0 <= j < nodes.len(),
        nodes[j].node_id != row.leader_id,
        tape[at + 2] == Event::Connected(other),
        tape[at + 3] is Encoded,
        verdicts::written_at(tape, at + 4) == Some(written),
    ensures
        verdicts::is_ruled(
            ServerCheck::ClusterWritesGoToTheLeader.spec_flow(ctx, tape),
            written.error.code == 6,
        ),
{
    let others = server_cluster::without_id(row.leader_id);
    calibration::lemma_first_where(nodes, others);
    assert(others(nodes[j]));
}

} // verus!

//! When a cluster passes the checks on what its brokers must agree on, said of
//! the answers they gave.

use vstd::prelude::*;

use crate::checks::calibration;
use crate::checks::ctx;
use crate::checks::ctx::ServerCtx;
use crate::checks::find;
use crate::checks::flows;
use crate::checks::flows::{Addressing, ProducedView};
use crate::checks::group_flows;
use crate::checks::server::ServerCheck;
use crate::checks::server_cluster;
use crate::checks::server_cluster::NodeView;
use crate::checks::server_groups;
use crate::checks::tape;
use crate::checks::tape::{ErrorView, Event, FlowView, HaltView};
use crate::checks::verdicts;
use crate::checks::verdicts_groups;
use crate::text;
use crate::wire;
use crate::wire::{CommitTopic, PartitionRow, ProducedRow, Response, TopicId};
use crate::VerdictView;

verus! {

/// Who leads: with fewer than two answers there is nothing to judge; otherwise a
/// pass exactly if all of them name the same leader.
pub proof fn law_leaders_are_compared(answers: Seq<(i32, i32)>, topic: Seq<char>)
    ensures
        ({
            let verdict = server_cluster::spec_judge_agreement(answers, topic);
            if answers.len() < 2 {
                verdict is Skipped
            } else if forall|i: int, j: int|
                0 <= i < answers.len() && 0 <= j < answers.len() ==> (#[trigger] answers[i]).1 == (
                #[trigger] answers[j]).1 {
                verdict == VerdictView::Pass
            } else {
                verdict is Fail
            }
        }),
{
    if answers.len() >= 2 {
        let other = server_cluster::other_leader(answers[0].1);
        calibration::lemma_first_where(answers, other);
        match find::first_where(answers, other) {
            Some(a) => {
                let i = choose|i: int| 0 <= i < answers.len() && answers[i] == a;
                assert(answers[i].1 != answers[0].1);
            },
            None => {
                assert forall|i: int, j: int|
                    0 <= i < answers.len() && 0 <= j < answers.len() implies (
                #[trigger] answers[i]).1 == (#[trigger] answers[j]).1 by {
                    assert(!other(answers[i]));
                    assert(!other(answers[j]));
                }
            },
        }
    }
}

/// Who coordinates: the same, of the places that were named.
pub proof fn law_coordinators_are_compared(answers: Seq<NodeView>, group: Seq<char>)
    ensures
        ({
            let verdict = server_cluster::spec_judge_coordinators(answers, group);
            if answers.len() < 2 {
                verdict is Skipped
            } else if forall|i: int, j: int|
                0 <= i < answers.len() && 0 <= j < answers.len() ==> (#[trigger] answers[i]).addr
                    == (#[trigger] answers[j]).addr {
                verdict == VerdictView::Pass
            } else {
                verdict is Fail
            }
        }),
{
    if answers.len() >= 2 {
        let other = server_cluster::placed_elsewhere(answers[0].addr);
        calibration::lemma_first_where(answers, other);
        match find::first_where(answers, other) {
            Some(a) => {
                let i = choose|i: int| 0 <= i < answers.len() && answers[i] == a;
                assert(answers[i].addr != answers[0].addr);
            },
            None => {
                assert forall|i: int, j: int|
                    0 <= i < answers.len() && 0 <= j < answers.len() implies (
                #[trigger] answers[i]).addr == (#[trigger] answers[j]).addr by {
                    assert(!other(answers[i]));
                    assert(!other(answers[j]));
                }
            },
        }
    }
}

/// Whether an answer describes partition 0 of a topic without an error, as a
/// row.
pub open spec fn describes(tape: Seq<Event>, i: int, topic: Seq<char>, row: PartitionRow) -> bool {
    verdicts::answer_at(tape, i) matches Some(Response::Metadata(answer)) && exists|t: int, p: int|
        0 <= t < answer.topics@.len() && answer.topics@[t].error.code == 0 && wire::opt_view(
            answer.topics@[t].name,
        ) == Some(topic) && 0 <= p < answer.topics@[t].partitions@.len() && row
            == #[trigger] answer.topics@[t].partitions@[p] && row.index == 0 && row.error.code == 0
}

proof fn lemma_describes(
    tape: Seq<Event>,
    at: int,
    conn: usize,
    version: i16,
    topic: Seq<char>,
    correlation: i32,
)
    ensures
        server_cluster::spec_leadership_at(tape, at, conn, version, topic, correlation) matches Ok(
            (seen, to),
        ) ==> to == at + 1 && (seen matches Some(row) ==> describes(tape, at, topic, row)),
{
    match verdicts::answer_at(tape, at) {
        Some(Response::Metadata(answer)) => {
            let named = find::is_named(topic);
            calibration::lemma_first_where(answer.topics@, named);
            match find::first_where(answer.topics@, named) {
                Some(entry) => {
                    let t = choose|t: int|
                        0 <= t < answer.topics@.len() && answer.topics@[t] == entry;
                    assert(named(answer.topics@[t]));
                    let zero = find::is_partition(0);
                    calibration::lemma_first_where(entry.partitions@, zero);
                    match find::first_where(entry.partitions@, zero) {
                        Some(row) => {
                            let p = choose|p: int|
                                0 <= p < entry.partitions@.len() && entry.partitions@[p] == row;
                            assert(zero(answer.topics@[t].partitions@[p]));
                        },
                        None => {},
                    }
                },
                None => {},
            }
        },
        _ => {},
    }
}

/// Whether a leader was read of an answer on the tape.
pub open spec fn is_led(tape: Seq<Event>, topic: Seq<char>, leader: i32) -> bool {
    exists|i: int, row: PartitionRow| #[trigger]
        describes(tape, i, topic, row) && row.leader_id == leader
}

proof fn lemma_leaders_read(
    ctx: ServerCtx,
    tape: Seq<Event>,
    at: int,
    version: i16,
    topic: Seq<char>,
    nodes: Seq<NodeView>,
    i: int,
    answers: Seq<(i32, i32)>,
)
    requires
        forall|k: int| 0 <= k < answers.len() ==> is_led(tape, topic, (#[trigger] answers[k]).1),
    ensures
        server_cluster::spec_leader_answers(
            ctx,
            tape,
            at,
            version,
            topic,
            nodes,
            i,
            answers,
        ) matches Ok((all, _)) ==> forall|k: int|
            0 <= k < all.len() ==> is_led(tape, topic, (#[trigger] all[k]).1),
    decreases nodes.len() - i,
{
    if i < nodes.len() {
        match tape::spec_connect(tape, at, nodes[i].addr) {
            Ok((conn, connected)) => match group_flows::spec_await_topic_known(
                ctx,
                tape,
                connected,
                conn,
                topic,
                ctx::spec_correlation(1_410, i),
            ) {
                Ok((_, known)) => {
                    let correlation = ctx::spec_correlation(1_510, i);
                    lemma_describes(tape, known, conn, version, topic, correlation);
                    match server_cluster::spec_leadership_at(
                        tape,
                        known,
                        conn,
                        version,
                        topic,
                        correlation,
                    ) {
                        Ok((None, next)) => {
                            lemma_leaders_read(
                                ctx,
                                tape,
                                next,
                                version,
                                topic,
                                nodes,
                                i + 1,
                                answers,
                            );
                        },
                        Ok((Some(row), next)) => {
                            let more = answers.push((nodes[i].node_id, row.leader_id));
                            assert(is_led(tape, topic, row.leader_id));
                            lemma_leaders_read(
                                ctx,
                                tape,
                                next,
                                version,
                                topic,
                                nodes,
                                i + 1,
                                more,
                            );
                        },
                        Err(_) => {},
                    }
                },
                Err(_) => {},
            },
            Err(_) => {},
        }
    }
}

/// A pass of the leader's check rests on a leader that was read of an answer.
#[verifier::rlimit(60)]
#[verifier::spinoff_prover]
pub proof fn law_leaders_pass(
    ctx: ServerCtx,
    tape: Seq<Event>,
    nodes: Seq<NodeView>,
    at: int,
    produced: ProducedView,
    written: int,
    to: int,
)
    requires
        verdicts::passed(ServerCheck::ClusterBrokersAgreeOnTheLeader, ctx, tape, to),
        server_cluster::spec_cluster_nodes(ctx, tape) == Ok::<(Seq<NodeView>, int), HaltView>(
            (nodes, at),
        ),
        flows::spec_produce_flow(ctx, tape, at, "agreeleader"@, Addressing::Name) == Ok::<
            (ProducedView, int),
            HaltView,
        >((produced, written)),
    ensures
        nodes.len() >= 2,
        exists|leader: i32| #[trigger] is_led(tape, produced.topic, leader),
{
    let version = ctx.spec_version(
        at,
        "Metadata"@,
        wire::METADATA,
        1,
        ctx.schema.metadata.max,
    )->Ok_0;
    lemma_leaders_read(
        ctx,
        tape,
        written,
        version,
        produced.topic,
        nodes,
        0,
        Seq::empty(),
    );
    let (answers, _) = server_cluster::spec_leader_answers(
        ctx,
        tape,
        written,
        version,
        produced.topic,
        nodes,
        0,
        Seq::empty(),
    )->Ok_0;
    assert(is_led(tape, produced.topic, answers[0].1));
}

/// Whether the replicas of a partition span brokers: as many as were asked for,
/// no two the same, each one known, with the leader and all that are in sync
/// among them.
pub open spec fn spans(row: PartitionRow, wanted: i16, known: Seq<i32>) -> bool {
    &&& row.replicas@.len() == wanted
    &&& forall|i: int, j: int|
        0 <= i < j < row.replicas@.len() ==> #[trigger] row.replicas@[i]
            != #[trigger] row.replicas@[j]
    &&& forall|i: int|
        0 <= i < row.replicas@.len() ==> known.contains(#[trigger] row.replicas@[i])
    &&& row.replicas@.contains(row.leader_id)
    &&& forall|i: int| 0 <= i < row.isr@.len() ==> row.replicas@.contains(#[trigger] row.isr@[i])
}

/// The replicas: a pass exactly if they span brokers.
pub proof fn law_replicas_are_judged(
    topic: Seq<char>,
    row: PartitionRow,
    wanted: i16,
    known: Seq<i32>,
)
    ensures
        ({
            let verdict = server_cluster::spec_judge_span(topic, row, wanted, known);
            if spans(row, wanted, known) {
                verdict == VerdictView::Pass
            } else {
                verdict is Fail
            }
        }),
{
    let stranger = server_cluster::unlisted(known);
    let outside = server_cluster::unlisted(row.replicas@);
    calibration::lemma_first_where(row.replicas@, stranger);
    calibration::lemma_first_where(row.isr@, outside);
    match find::first_where(row.replicas@, stranger) {
        Some(id) => {
            let i = choose|i: int| 0 <= i < row.replicas@.len() && row.replicas@[i] == id;
            assert(!known.contains(row.replicas@[i]));
        },
        None => {
            assert forall|i: int| 0 <= i < row.replicas@.len() implies known.contains(
                #[trigger] row.replicas@[i],
            ) by {
                assert(!stranger(row.replicas@[i]));
            }
        },
    }
    match find::first_where(row.isr@, outside) {
        Some(id) => {
            let i = choose|i: int| 0 <= i < row.isr@.len() && row.isr@[i] == id;
            assert(!row.replicas@.contains(row.isr@[i]));
        },
        None => {
            assert forall|i: int| 0 <= i < row.isr@.len() implies row.replicas@.contains(
                #[trigger] row.isr@[i],
            ) by {
                assert(!outside(row.isr@[i]));
            }
        },
    }
}

proof fn lemma_described(
    ctx: ServerCtx,
    tape: Seq<Event>,
    at: int,
    conn: usize,
    version: i16,
    topic: Seq<char>,
    base: i32,
    attempt: int,
)
    ensures
        server_cluster::spec_await_described(
            ctx,
            tape,
            at,
            conn,
            version,
            topic,
            base,
            attempt,
        ) matches Ok((row, to)) ==> describes(tape, to - 1, topic, row),
    decreases ctx.config.spec_settle_attempts() - attempt,
{
    if attempt < ctx.config.spec_settle_attempts() {
        match tape::spec_pause_between(tape, at, attempt) {
            Ok((_, paused)) => {
                lemma_describes(
                    tape,
                    paused,
                    conn,
                    version,
                    topic,
                    ctx::spec_correlation(base, attempt),
                );
                lemma_described(ctx, tape, paused + 1, conn, version, topic, base, attempt + 1);
            },
            Err(_) => {},
        }
    }
}

/// A pass of the replicas' check rests on the last answer: it describes a
/// partition that spans all the brokers that were reported.
#[verifier::rlimit(60)]
#[verifier::spinoff_prover]
pub proof fn law_replicas_pass(
    ctx: ServerCtx,
    tape: Seq<Event>,
    nodes: Seq<NodeView>,
    at: int,
    to: int,
)
    requires
        verdicts::passed(ServerCheck::ClusterReplicasSpanBrokers, ctx, tape, to),
        server_cluster::spec_cluster_nodes(ctx, tape) == Ok::<(Seq<NodeView>, int), HaltView>(
            (nodes, at),
        ),
        nodes.len() <= 32_767,
    ensures
        exists|topic: Seq<char>, row: PartitionRow| #[trigger]
            describes(tape, to - 1, topic, row) && spans(
                row,
                nodes.len() as i16,
                nodes.map_values(|n: NodeView| n.node_id),
            ),
{
    let version = ctx.spec_version(
        at,
        "Metadata"@,
        wire::METADATA,
        1,
        ctx.schema.metadata.max,
    )->Ok_0;
    let (conn, connected) = tape::spec_connect(tape, at, ctx.addr@)->Ok_0;
    let (topic, named) = ctx::spec_fresh_topic(ctx, tape, connected, "spanned"@)->Ok_0;
    lemma_described(ctx, tape, named + 1, conn, version, topic, 1_460, 0);
    let (row, _) = server_cluster::spec_await_described(
        ctx,
        tape,
        named + 1,
        conn,
        version,
        topic,
        1_460,
        0,
    )->Ok_0;
    law_replicas_are_judged(topic, row, nodes.len() as i16, server_cluster::ids_in(nodes));
}

/// A write that went astray passes exactly if the broker says that it does not
/// lead.
pub proof fn law_stray_writes_are_judged(
    row: ProducedRow,
    node_id: i32,
    topic: Seq<char>,
    leader: i32,
)
    ensures
        ({
            let verdict = server_cluster::spec_judge_stray_write(row, node_id, topic, leader);
            if row.error.code == 6 {
                verdict == VerdictView::Pass
            } else {
                verdict is Fail
            }
        }),
{
}

/// A pass of that check rests on the last answer, which says so.
#[verifier::rlimit(60)]
#[verifier::spinoff_prover]
pub proof fn law_stray_writes_pass(ctx: ServerCtx, tape: Seq<Event>, to: int)
    requires
        verdicts::passed(ServerCheck::ClusterWritesGoToTheLeader, ctx, tape, to),
    ensures
        verdicts::written_at(tape, to - 1) matches Some(row) && row.error.code == 6,
{
}

/// A commit that went astray: taken, it fails; refused, it passes exactly if the
/// refusal says that the broker does not coordinate.
pub proof fn law_stray_commits_are_judged(
    flow: FlowView<()>,
    not_coordinator: Seq<char>,
    node_id: i32,
    group: Seq<char>,
    coordinator: Seq<char>,
)
    ensures
        ({
            let judged = server_cluster::spec_judge_misplaced(
                flow,
                not_coordinator,
                node_id,
                group,
                coordinator,
            );
            match flow {
                Ok(_) => verdicts::is_ruled(judged, false),
                Err(HaltView::Broke(ErrorView::Violation(details), _)) => verdicts::is_ruled(
                    judged,
                    text::has_text(details, not_coordinator),
                ),
                Err(_) => !(judged is Ok),
            }
        }),
{
}

proof fn lemma_failed_over(
    ctx: ServerCtx,
    tape: Seq<Event>,
    at: int,
    conn: usize,
    version: i16,
    topic: Seq<char>,
    leader: i32,
    replicas: Seq<i32>,
    attempt: int,
)
    ensures
        match server_cluster::spec_await_failover(
            ctx,
            tape,
            at,
            conn,
            version,
            topic,
            leader,
            replicas,
            attempt,
        ) {
            Ok((new_leader, to)) => new_leader != leader && new_leader >= 0 && is_led(
                tape,
                topic,
                new_leader,
            ),
            Err(HaltView::Stop(verdict, _)) => !(verdict is Pass),
            Err(_) => true,
        },
    decreases ctx.config.spec_recovery_attempts() - attempt,
{
    if attempt < ctx.config.spec_recovery_attempts() {
        match tape::spec_pause_between(tape, at, attempt) {
            Ok((_, paused)) => {
                lemma_describes(tape, paused, conn, version, topic, 1_520);
                lemma_failed_over(
                    ctx,
                    tape,
                    paused + 1,
                    conn,
                    version,
                    topic,
                    leader,
                    replicas,
                    attempt + 1,
                );
            },
            Err(_) => {},
        }
    }
}

proof fn lemma_writable(
    ctx: ServerCtx,
    tape: Seq<Event>,
    at: int,
    conn: usize,
    version: i16,
    topic: Seq<char>,
    leader: i32,
    new_leader: i32,
    attempt: int,
    last: Seq<char>,
)
    ensures
        tape::spec_settle(
            server_cluster::spec_await_writable(
                ctx,
                tape,
                at,
                conn,
                version,
                topic,
                leader,
                new_leader,
                attempt,
                last,
            ),
        ) matches Ok((VerdictView::Pass, to)) ==> (verdicts::written_at(tape, to - 1) matches Some(
            row,
        ) && row.error.code == 0),
    decreases ctx.config.spec_recovery_attempts() - attempt,
{
    if attempt < ctx.config.spec_recovery_attempts() {
        match tape::spec_pause_between(tape, at, attempt) {
            Ok((_, paused)) => {
                match verdicts::written_at(tape, paused + 1) {
                    Some(row) => {
                        lemma_writable(
                            ctx,
                            tape,
                            paused + 2,
                            conn,
                            version,
                            topic,
                            leader,
                            new_leader,
                            attempt + 1,
                            row.error.shown@,
                        );
                    },
                    None => {},
                }
                lemma_writable(
                    ctx,
                    tape,
                    paused + 1,
                    conn,
                    version,
                    topic,
                    leader,
                    new_leader,
                    attempt + 1,
                    last,
                );
                lemma_writable(
                    ctx,
                    tape,
                    paused + 2,
                    conn,
                    version,
                    topic,
                    leader,
                    new_leader,
                    attempt + 1,
                    last,
                );
            },
            Err(_) => {},
        }
    }
}

/// A failover passes only if some answer names another leader than the broker
/// that was stopped, one of the replicas, and if a write was taken last.
pub proof fn law_failovers_pass(
    ctx: ServerCtx,
    tape: Seq<Event>,
    at: int,
    survivor: Seq<char>,
    metadata_version: i16,
    produce_version: i16,
    topic: Seq<char>,
    leader: i32,
    replicas: Seq<i32>,
    nodes: Seq<NodeView>,
    to: int,
)
    requires
        tape::spec_settle(
            server_cluster::spec_failover(
                ctx,
                tape,
                at,
                survivor,
                metadata_version,
                produce_version,
                topic,
                leader,
                replicas,
                nodes,
            ),
        ) == Ok::<(VerdictView, int), HaltView>((VerdictView::Pass, to)),
    ensures
        verdicts::written_at(tape, to - 1) matches Some(row) && row.error.code == 0,
        exists|new_leader: i32| #[trigger]
            is_led(tape, topic, new_leader) && new_leader != leader && new_leader >= 0
                && replicas.contains(new_leader),
{
    match tape::spec_connect(tape, at, survivor) {
        Ok((conn, connected)) => {
            lemma_failed_over(
                ctx,
                tape,
                connected,
                conn,
                metadata_version,
                topic,
                leader,
                replicas,
                0,
            );
            match server_cluster::spec_await_failover(
                ctx,
                tape,
                connected,
                conn,
                metadata_version,
                topic,
                leader,
                replicas,
                0,
            ) {
                Ok((new_leader, moved)) => match find::first_where(
                    nodes,
                    server_cluster::with_id(new_leader),
                ) {
                    Some(node) => match tape::spec_connect(tape, moved, node.addr) {
                        Ok((taker, ready)) => {
                            lemma_writable(
                                ctx,
                                tape,
                                ready,
                                taker,
                                produce_version,
                                topic,
                                leader,
                                new_leader,
                                0,
                                ctx.names.none@,
                            );
                            assert(is_led(tape, topic, new_leader));
                        },
                        Err(_) => {},
                    },
                    None => {},
                },
                Err(_) => {},
            }
        },
        Err(_) => {},
    }
}

/// A broker that was stopped is started again, whatever the check came to; the
/// verdict stands only if that worked.
pub proof fn law_restarts_keep_the_verdict(
    tape: Seq<Event>,
    body: FlowView<VerdictView>,
    node_id: i32,
    addr: Seq<char>,
)
    ensures
        verdicts::ended(server_cluster::spec_restart(tape, body, node_id, addr)) matches Some(
            (verdict, to),
        ) ==> (verdicts::ended(body) matches Some((reached, at)) && to == at + 1 && 0 <= at
            < tape.len() && if tape[at] is Controlled && tape[at]->Controlled_0 is Ok {
            verdict == reached
        } else {
            verdict is Error
        }),
{
}

/// A pass of the failover's check rests on a write that was taken, just before
/// the broker came back.
#[verifier::rlimit(60)]
#[verifier::spinoff_prover]
pub proof fn law_leadership_moves_pass(ctx: ServerCtx, tape: Seq<Event>, to: int)
    requires
        verdicts::passed(ServerCheck::ClusterLeadershipMovesWhenABrokerStops, ctx, tape, to),
    ensures
        verdicts::written_at(tape, to - 2) matches Some(row) && row.error.code == 0,
        0 < to <= tape.len() && tape[to - 1] is Controlled && tape[to - 1]->Controlled_0 is Ok,
        exists|topic: Seq<char>, old_leader: i32, new_leader: i32|
            #![trigger is_led(tape, topic, old_leader), is_led(tape, topic, new_leader)]
            is_led(tape, topic, old_leader) && is_led(tape, topic, new_leader) && old_leader
                != new_leader,
{
    let (nodes, met) = server_cluster::spec_cluster_nodes(ctx, tape)->Ok_0;
    let metadata = ctx.spec_version(
        met,
        "Metadata"@,
        wire::METADATA,
        1,
        ctx.schema.metadata.max,
    )->Ok_0;
    let produce = ctx.spec_version(
        met,
        "Produce"@,
        wire::PRODUCE,
        ctx.schema.produce.min,
        flows::PRODUCE_NAME_MAX,
    )->Ok_0;
    let (topic, named) = ctx::spec_fresh_topic(ctx, tape, met, "failover"@)->Ok_0;
    let wanted = server_cluster::spec_replicas_for(nodes.len() as int, 1);
    let (bootstrap, connected) = tape::spec_connect(tape, named, ctx.addr@)->Ok_0;
    let (_, created) = server_cluster::spec_create_replicated_topic(
        ctx,
        tape,
        connected,
        bootstrap,
        topic,
        wanted,
        1_500,
    )->Ok_0;
    let (row, settled) = server_cluster::spec_settle_leadership(
        ctx,
        tape,
        created,
        bootstrap,
        metadata,
        topic,
        1_510,
        0,
    )->Ok_0;
    lemma_led(ctx, tape, created, bootstrap, metadata, topic, 1_510, 0);
    let survivor = find::first_where(
        nodes,
        server_cluster::without_id(row.leader_id),
    )->Some_0;
    law_failovers_pass(
        ctx,
        tape,
        settled + 1,
        survivor.addr,
        metadata,
        produce,
        topic,
        row.leader_id,
        row.replicas@,
        nodes,
        to - 1,
    );
    assert(is_led(tape, topic, row.leader_id));
}

proof fn lemma_led(
    ctx: ServerCtx,
    tape: Seq<Event>,
    at: int,
    conn: usize,
    version: i16,
    topic: Seq<char>,
    base: i32,
    attempt: int,
)
    ensures
        server_cluster::spec_settle_leadership(
            ctx,
            tape,
            at,
            conn,
            version,
            topic,
            base,
            attempt,
        ) matches Ok((row, to)) ==> row.leader_id >= 0 && describes(tape, to - 1, topic, row),
    decreases ctx.config.spec_settle_attempts() - attempt,
{
    if attempt < ctx.config.spec_settle_attempts() {
        match tape::spec_pause_between(tape, at, attempt) {
            Ok((_, paused)) => {
                lemma_describes(
                    tape,
                    paused,
                    conn,
                    version,
                    topic,
                    ctx::spec_correlation(base, attempt),
                );
                lemma_led(ctx, tape, paused + 1, conn, version, topic, base, attempt + 1);
            },
            Err(_) => {},
        }
    }
}

proof fn lemma_asked(
    ctx: ServerCtx,
    tape: Seq<Event>,
    at: int,
    conn: usize,
    version: i16,
    group: Seq<char>,
    attempt: int,
)
    ensures
        !(group_flows::spec_ask_coordinator(
            ctx,
            tape,
            at,
            conn,
            version,
            0,
            group,
            80,
            attempt,
        ) matches Err(HaltView::Stop(_, _))),
    decreases ctx.config.spec_settle_attempts() - attempt,
{
    if attempt < ctx.config.spec_settle_attempts() {
        match tape::spec_pause_between(tape, at, attempt) {
            Ok((_, paused)) => {
                lemma_asked(ctx, tape, paused + 1, conn, version, group, attempt + 1);
            },
            Err(_) => {},
        }
    }
}

proof fn lemma_asked_at(
    ctx: ServerCtx,
    tape: Seq<Event>,
    at: int,
    addr: Seq<char>,
    group: Seq<char>,
)
    ensures
        !(group_flows::spec_await_coordinator_at(ctx, tape, at, addr, group) matches Err(
            HaltView::Stop(_, _),
        )),
{
    match ctx.spec_pick(
        "FindCoordinator"@,
        wire::FIND_COORDINATOR,
        ctx.schema.find_coordinator.min,
        ctx.schema.find_coordinator.max,
    ) {
        Ok(version) => match tape::spec_connect(tape, at, addr) {
            Ok((conn, connected)) => {
                lemma_asked(ctx, tape, connected, conn, version, group, 0);
            },
            Err(_) => {},
        },
        Err(_) => {},
    }
}

proof fn lemma_relocated(
    ctx: ServerCtx,
    tape: Seq<Event>,
    at: int,
    survivor: Seq<char>,
    group: Seq<char>,
    coordinator: Seq<char>,
    owner: i32,
    attempt: int,
)
    ensures
        match server_cluster::spec_await_relocated(
            ctx,
            tape,
            at,
            survivor,
            group,
            coordinator,
            owner,
            attempt,
        ) {
            Ok((addr, _)) => addr != coordinator,
            Err(HaltView::Stop(verdict, _)) => !(verdict is Pass),
            Err(_) => true,
        },
    decreases ctx.config.spec_recovery_attempts() - attempt,
{
    if attempt < ctx.config.spec_recovery_attempts() {
        match tape::spec_pause_between(tape, at, attempt) {
            Ok((_, paused)) => {
                lemma_asked_at(ctx, tape, paused, survivor, group);
                match group_flows::spec_await_coordinator_at(
                    ctx,
                    tape,
                    paused,
                    survivor,
                    group,
                ) {
                Ok((_, next)) => {
                    lemma_relocated(
                        ctx,
                        tape,
                        next,
                        survivor,
                        group,
                        coordinator,
                        owner,
                        attempt + 1,
                    );
                },
                Err(HaltView::Broke(_, next)) => {
                    lemma_relocated(
                        ctx,
                        tape,
                        next,
                        survivor,
                        group,
                        coordinator,
                        owner,
                        attempt + 1,
                    );
                },
                Err(_) => {},
                }
            },
            Err(_) => {},
        }
    }
}

/// The coordinator that a group is found at once its own was stopped is another
/// one.
pub proof fn law_groups_are_found_elsewhere(
    ctx: ServerCtx,
    tape: Seq<Event>,
    at: int,
    survivor: Seq<char>,
    group: Seq<char>,
    coordinator: Seq<char>,
    owner: i32,
    addr: Seq<char>,
    to: int,
)
    requires
        server_cluster::spec_await_relocated(
            ctx,
            tape,
            at,
            survivor,
            group,
            coordinator,
            owner,
            0,
        ) == Ok::<(Seq<char>, int), HaltView>((addr, to)),
    ensures
        addr != coordinator,
{
    lemma_relocated(ctx, tape, at, survivor, group, coordinator, owner, 0);
}

proof fn lemma_offset_kept(
    ctx: ServerCtx,
    tape: Seq<Event>,
    at: int,
    conn: usize,
    version: i16,
    group: Seq<char>,
    topic: Seq<char>,
    topic_id: TopicId,
    owner: i32,
    addr: Seq<char>,
    attempt: int,
    last: Seq<char>,
)
    ensures
        tape::spec_settle(
            server_cluster::spec_await_offset(
                ctx,
                tape,
                at,
                conn,
                version,
                group,
                topic,
                topic_id,
                owner,
                addr,
                attempt,
                last,
            ),
        ) matches Ok((VerdictView::Pass, to)) ==> verdicts_groups::reads_at(
            tape,
            to - 1,
            version,
            group,
            topic,
            topic_id,
            23,
        ),
    decreases ctx.config.spec_recovery_attempts() - attempt,
{
    if attempt < ctx.config.spec_recovery_attempts() {
        match tape::spec_pause_between(tape, at, attempt) {
            Ok((_, paused)) => {
                verdicts_groups::lemma_reads(
                    tape,
                    paused,
                    conn,
                    version,
                    group,
                    topic,
                    topic_id,
                    1_550,
                );
                match group_flows::spec_fetch_committed(
                    tape,
                    paused,
                    conn,
                    version,
                    group,
                    topic,
                    topic_id,
                    1_550,
                ) {
                    Ok((got, next)) => {
                        lemma_offset_kept(
                            ctx,
                            tape,
                            next,
                            conn,
                            version,
                            group,
                            topic,
                            topic_id,
                            owner,
                            addr,
                            attempt + 1,
                            "reports "@ + text::dec(got as int),
                        );
                    },
                    Err(HaltView::Broke(ErrorView::Violation(details), next)) => {
                        lemma_offset_kept(
                            ctx,
                            tape,
                            next,
                            conn,
                            version,
                            group,
                            topic,
                            topic_id,
                            owner,
                            addr,
                            attempt + 1,
                            details,
                        );
                    },
                    Err(_) => {},
                }
            },
            Err(_) => {},
        }
    }
}

/// An offset that outlives its coordinator passes only if the last answer gives
/// it, 23, for the group and the topic.
pub proof fn law_kept_offsets_pass(
    ctx: ServerCtx,
    tape: Seq<Event>,
    at: int,
    survivor: Seq<char>,
    fetch_version: i16,
    group: Seq<char>,
    coordinator: Seq<char>,
    produced: ProducedView,
    owner: i32,
    to: int,
)
    requires
        tape::spec_settle(
            server_cluster::spec_resume(
                ctx,
                tape,
                at,
                survivor,
                fetch_version,
                group,
                coordinator,
                produced,
                owner,
            ),
        ) == Ok::<(VerdictView, int), HaltView>((VerdictView::Pass, to)),
    ensures
        verdicts_groups::reads_at(
            tape,
            to - 1,
            fetch_version,
            group,
            produced.topic,
            produced.topic_id,
            23,
        ),
{
    match tape::spec_connect(tape, at, survivor) {
        Ok((conn, connected)) => {
            lemma_relocated(ctx, tape, connected, survivor, group, coordinator, owner, 0);
            match server_cluster::spec_await_relocated(
                ctx,
                tape,
                connected,
                survivor,
                group,
                coordinator,
                owner,
                0,
            ) {
                Ok((addr, found)) => match tape::spec_connect(tape, found, addr) {
                    Ok((other, ready)) => {
                        lemma_offset_kept(
                            ctx,
                            tape,
                            ready,
                            other,
                            fetch_version,
                            group,
                            produced.topic,
                            produced.topic_id,
                            owner,
                            addr,
                            0,
                            "says nothing about it"@,
                        );
                    },
                    Err(HaltView::Broke(_, ready)) => {
                        lemma_offset_kept(
                            ctx,
                            tape,
                            ready,
                            conn,
                            fetch_version,
                            group,
                            produced.topic,
                            produced.topic_id,
                            owner,
                            addr,
                            0,
                            "says nothing about it"@,
                        );
                    },
                    Err(_) => {},
                },
                Err(_) => {},
            }
        },
        Err(_) => {},
    }
}

/// A pass of that check rests on such an answer, just before the broker came
/// back.
#[verifier::rlimit(60)]
#[verifier::spinoff_prover]
pub proof fn law_outliving_offsets_pass(
    ctx: ServerCtx,
    tape: Seq<Event>,
    nodes: Seq<NodeView>,
    met: int,
    versions: (i16, i16),
    produced: ProducedView,
    written: int,
    to: int,
)
    requires
        verdicts::passed(ServerCheck::ClusterCommittedOffsetsOutliveTheCoordinator, ctx, tape, to),
        server_cluster::spec_cluster_nodes(ctx, tape) == Ok::<(Seq<NodeView>, int), HaltView>(
            (nodes, met),
        ),
        server_groups::spec_offsets_versions(ctx, met) == Ok::<(i16, i16), HaltView>(versions),
        flows::spec_produce_flow(ctx, tape, met, "coordloss"@, Addressing::Name) == Ok::<
            (ProducedView, int),
            HaltView,
        >((produced, written)),
    ensures
        0 < to <= tape.len() && tape[to - 1] is Controlled && tape[to - 1]->Controlled_0 is Ok,
        verdicts_groups::reads_at(
            tape,
            to - 2,
            versions.1,
            ctx.spec_check_group("coordloss"@),
            produced.topic,
            produced.topic_id,
            23,
        ),
{
    let group = ctx.spec_check_group("coordloss"@);
    let (place, found) = group_flows::spec_await_coordinator_at(
        ctx,
        tape,
        written,
        ctx.addr@,
        group,
    )->Ok_0;
    let coordinator = place->Some_0;
    let owner = find::first_where(nodes, server_cluster::placed_at(coordinator))->Some_0;
    let survivor = find::first_where(nodes, server_cluster::without_id(owner.node_id))->Some_0;
    let (conn, connected) = tape::spec_connect(tape, found, coordinator)->Ok_0;
    let (_, known) = group_flows::spec_await_topic_known(
        ctx,
        tape,
        connected,
        conn,
        produced.topic,
        1_540,
    )->Ok_0;
    law_kept_offsets_pass(
        ctx,
        tape,
        known + 2,
        survivor.addr,
        versions.1,
        group,
        coordinator,
        produced,
        owner.node_id,
        to - 1,
    );
}

/// Whether a coordinator's place was read of an answer on the tape.
pub open spec fn is_coordinated(tape: Seq<Event>, place: Seq<char>) -> bool {
    exists|i: int, host: Seq<char>, port: i32| #[trigger]
        names_place(tape, i, host, port) && place == host + ":"@ + text::dec(port as int)
}

/// Whether an answer names a place that can be reached.
pub open spec fn names_place(tape: Seq<Event>, i: int, host: Seq<char>, port: i32) -> bool {
    &&& host.len() > 0 && 1 <= port <= 65535
    &&& verdicts::answer_at(tape, i) matches Some(Response::FindCoordinator(answer)) && ((
    answer.host@ == host && answer.port == port) || (answer.coordinators@.len() > 0
        && answer.coordinators@[0].host@ == host && answer.coordinators@[0].port == port))
}

proof fn lemma_coordinators_read(
    ctx: ServerCtx,
    tape: Seq<Event>,
    at: int,
    version: i16,
    group: Seq<char>,
    nodes: Seq<NodeView>,
    i: int,
    answers: Seq<NodeView>,
)
    requires
        forall|k: int|
            0 <= k < answers.len() ==> is_coordinated(tape, (#[trigger] answers[k]).addr),
    ensures
        server_cluster::spec_coordinator_answers(
            ctx,
            tape,
            at,
            version,
            group,
            nodes,
            i,
            answers,
        ) matches Ok((all, _)) ==> forall|k: int|
            0 <= k < all.len() ==> is_coordinated(tape, (#[trigger] all[k]).addr),
    decreases nodes.len() - i,
{
    if i < nodes.len() {
        match tape::spec_connect(tape, at, nodes[i].addr) {
            Ok((_, connected)) => match verdicts::answer_at(tape, connected) {
                Some(Response::FindCoordinator(answer)) => {
                    lemma_coordinators_read(
                        ctx,
                        tape,
                        connected + 1,
                        version,
                        group,
                        nodes,
                        i + 1,
                        answers,
                    );
                    match find::spec_coordinator_endpoint(answer, version) {
                        Some(place) => {
                            if version >= 4 {
                                let row = answer.coordinators@[0];
                                assert(names_place(tape, connected, row.host@, row.port));
                            } else {
                                assert(names_place(tape, connected, answer.host@, answer.port));
                            }
                            assert(is_coordinated(tape, place));
                            let more = answers.push(
                                NodeView { node_id: nodes[i].node_id, addr: place },
                            );
                            assert forall|k: int| 0 <= k < more.len() implies is_coordinated(
                                tape,
                                (#[trigger] more[k]).addr,
                            ) by {
                                if k < answers.len() {
                                    assert(more[k] == answers[k]);
                                }
                            }
                            lemma_coordinators_read(
                                ctx,
                                tape,
                                connected + 1,
                                version,
                                group,
                                nodes,
                                i + 1,
                                more,
                            );
                        },
                        None => {},
                    }
                },
                _ => {},
            },
            Err(_) => {},
        }
    }
}

/// A pass of the coordinator's check rests on a place that was read of an
/// answer.
#[verifier::rlimit(60)]
#[verifier::spinoff_prover]
pub proof fn law_coordinators_agree_to_pass(
    ctx: ServerCtx,
    tape: Seq<Event>,
    nodes: Seq<NodeView>,
    at: int,
    to: int,
)
    requires
        verdicts::passed(ServerCheck::ClusterBrokersAgreeOnTheCoordinator, ctx, tape, to),
        server_cluster::spec_cluster_nodes(ctx, tape) == Ok::<(Seq<NodeView>, int), HaltView>(
            (nodes, at),
        ),
    ensures
        nodes.len() >= 2,
        exists|place: Seq<char>| #[trigger] is_coordinated(tape, place),
{
    let version = ctx.spec_version(
        at,
        "FindCoordinator"@,
        wire::FIND_COORDINATOR,
        ctx.schema.find_coordinator.min,
        ctx.schema.find_coordinator.max,
    )->Ok_0;
    let group = ctx.spec_check_group("agreecoord"@);
    let (_, found) = group_flows::spec_await_coordinator_at(
        ctx,
        tape,
        at,
        ctx.addr@,
        group,
    )->Ok_0;
    lemma_coordinators_read(ctx, tape, found, version, group, nodes, 0, Seq::empty());
    let (answers, _) = server_cluster::spec_coordinator_answers(
        ctx,
        tape,
        found,
        version,
        group,
        nodes,
        0,
        Seq::empty(),
    )->Ok_0;
    assert(is_coordinated(tape, answers[0].addr));
}

/// A pass of the stray commit's check never rests on a commit that was taken: of
/// an answer that was read last, the first row for the topic has an error.
#[verifier::rlimit(60)]
#[verifier::spinoff_prover]
pub proof fn law_stray_commits_pass(
    ctx: ServerCtx,
    tape: Seq<Event>,
    nodes: Seq<NodeView>,
    met: int,
    versions: (i16, i16),
    produced: ProducedView,
    written: int,
    to: int,
    j: int,
)
    requires
        verdicts::passed(ServerCheck::ClusterGroupOffsetsNeedTheCoordinator, ctx, tape, to),
        server_cluster::spec_cluster_nodes(ctx, tape) == Ok::<(Seq<NodeView>, int), HaltView>(
            (nodes, met),
        ),
        server_groups::spec_offsets_versions(ctx, met) == Ok::<(i16, i16), HaltView>(versions),
        flows::spec_produce_flow(ctx, tape, met, "notcoord"@, Addressing::Name) == Ok::<
            (ProducedView, int),
            HaltView,
        >((produced, written)),
    ensures
        verdicts::answer_at(tape, to - 1) matches Some(Response::OffsetCommit(topics)) ==> (
        is_first_for(topics@, versions.0, produced, j) && topics@[j].partitions@.len() > 0
            ==> topics@[j].partitions@[0].code != 0),
{
    match verdicts::answer_at(tape, to - 1) {
        Some(Response::OffsetCommit(topics)) => {
            if is_first_for(topics@, versions.0, produced, j) {
                let wanted = find::commit_for(versions.0, produced.topic, produced.topic_id);
                assert forall|k: int| 0 <= k < j implies !wanted(#[trigger] topics@[k]) by {
                    assert(!is_for(topics@[k], versions.0, produced));
                }
                verdicts::lemma_first_is(topics@, wanted, j);
            }
        },
        _ => {},
    }
}

/// Whether a row of a commit's answer is for a topic: by its id from version 10
/// on, and by its name before.
pub open spec fn is_for(row: CommitTopic, version: i16, produced: ProducedView) -> bool {
    if version >= 10 {
        row.topic_id@ == produced.topic_id@
    } else {
        row.name@ == produced.topic
    }
}

/// Whether the first row for a topic is at a place.
pub open spec fn is_first_for(
    rows: Seq<CommitTopic>,
    version: i16,
    produced: ProducedView,
    j: int,
) -> bool {
    &&& 0 <= j < rows.len()
    &&& is_for(rows[j], version, produced)
    &&& forall|k: int| 0 <= k < j ==> !is_for(#[trigger] rows[k], version, produced)
}

} // verus!

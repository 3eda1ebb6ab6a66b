//! When a subject passes the checks on producers and transactions, said of the
//! answers it gave.

use vstd::prelude::*;

use crate::checks::ctx;
use crate::checks::ctx::ServerCtx;
use crate::checks::flows;
use crate::checks::flows::{Addressing, ProducedView};
use crate::checks::group_flows;
use crate::checks::log_flows;
use crate::checks::server::ServerCheck;
use crate::checks::server_groups;
use crate::checks::server_txn;
use crate::checks::tape;
use crate::checks::tape::{ErrorView, Event, HaltView};
use crate::checks::txn_flows;
use crate::checks::verdicts;
use crate::checks::verdicts_groups;
use crate::checks::verdicts_log;
use crate::wire;
use crate::wire::{ErrorCode, FetchedRow, ProducedRow, Response, TopicId};
use crate::VerdictView;

verus! {

/// Whether a place on the tape holds an identity that was handed out.
pub open spec fn claimed_at(
    tape: Seq<Event>,
    i: int,
    producer_id: i64,
    producer_epoch: i16,
) -> bool {
    verdicts::answer_at(tape, i) matches Some(Response::InitProducerId(answer))
        && answer.error.code == 0 && answer.producer_id == producer_id && answer.producer_epoch
        == producer_epoch
}

proof fn lemma_claimed(
    ctx: ServerCtx,
    tape: Seq<Event>,
    at: int,
    bootstrap: usize,
    conn: usize,
    version: i16,
    id: Seq<char>,
    base: i32,
    attempt: int,
    last: Seq<char>,
)
    ensures
        txn_flows::spec_claim(
            ctx,
            tape,
            at,
            bootstrap,
            conn,
            version,
            id,
            base,
            attempt,
            last,
        ) matches Ok((claim, to)) ==> claimed_at(
            tape,
            to - 1,
            claim.producer_id,
            claim.producer_epoch,
        ),
    decreases ctx.config.spec_settle_attempts() - attempt,
{
    if attempt < ctx.config.spec_settle_attempts() {
        match txn_flows::spec_follow(ctx, tape, at, bootstrap, conn, id, base, attempt) {
            Ok((followed, ready)) => match verdicts::answer_at(tape, ready) {
                Some(Response::InitProducerId(answer)) => {
                    lemma_claimed(
                        ctx,
                        tape,
                        ready + 1,
                        bootstrap,
                        followed,
                        version,
                        id,
                        base,
                        attempt + 1,
                        answer.error.shown@,
                    );
                },
                _ => {},
            },
            Err(_) => {},
        }
    }
}

/// An identity that was claimed is the one that the last answer handed out.
pub proof fn law_claims_are_answered(
    ctx: ServerCtx,
    tape: Seq<Event>,
    at: int,
    version: i16,
    id: Seq<char>,
    base: i32,
)
    ensures
        txn_flows::spec_init_producer_id(ctx, tape, at, version, id, base) matches Ok((claim, to))
            ==> claimed_at(tape, to - 1, claim.producer_id, claim.producer_epoch),
{
    match tape::spec_connect(tape, at, ctx.addr@) {
        Ok((bootstrap, connected)) => match txn_flows::spec_await_txn_coordinator(
            ctx,
            tape,
            connected,
            bootstrap,
            id,
            base.wrapping_sub(1),
        ) {
            Ok((place, found)) => {
                let addr = match place {
                    Some(addr) => addr,
                    None => ctx.addr@,
                };
                match tape::spec_connect(tape, found, addr) {
                    Ok((conn, ready)) => {
                        lemma_claimed(ctx, tape, ready, bootstrap, conn, version, id, base, 0, ""@);
                    },
                    Err(_) => {},
                }
            },
            Err(_) => {},
        },
        Err(_) => {},
    }
}

/// A claim that is made again: a pass exactly if the id is the same and the
/// epoch is higher.
pub proof fn law_reclaims_are_judged(
    id: Seq<char>,
    first_id: i64,
    first_epoch: i16,
    second_id: i64,
    second_epoch: i16,
)
    ensures
        ({
            let verdict = server_txn::spec_judge_reclaim(
                id,
                first_id,
                first_epoch,
                second_id,
                second_epoch,
            );
            if second_id == first_id && second_epoch > first_epoch {
                verdict == VerdictView::Pass
            } else {
                verdict is Fail
            }
        }),
{
}

/// A pass of that check rests on two answers for one id, of which the last has
/// the higher epoch.
#[verifier::rlimit(60)]
#[verifier::spinoff_prover]
pub proof fn law_reclaims_pass(ctx: ServerCtx, tape: Seq<Event>, to: int)
    requires
        verdicts::passed(ServerCheck::TxnInitBumpsTheEpoch, ctx, tape, to),
    ensures
        exists|i: int, producer_id: i64, before: i16, after: i16|
            #![trigger claimed_at(tape, i, producer_id, before), claimed_at(
                tape,
                to - 1,
                producer_id,
                after,
            )]
            claimed_at(tape, i, producer_id, before) && claimed_at(
                tape,
                to - 1,
                producer_id,
                after,
            ) && before < after,
{
    let versions = txn_flows::spec_txn_versions(ctx, 0)->Ok_0;
    let (id, named) = ctx::spec_fresh_txn_id(ctx, tape, 0, "epoch"@)->Ok_0;
    let (first, once) = txn_flows::spec_init_producer_id(
        ctx,
        tape,
        named,
        versions.init,
        id,
        400,
    )->Ok_0;
    let (second, _) = txn_flows::spec_init_producer_id(
        ctx,
        tape,
        once,
        versions.init,
        id,
        420,
    )->Ok_0;
    law_claims_are_answered(ctx, tape, named, versions.init, id, 400);
    law_claims_are_answered(ctx, tape, once, versions.init, id, 420);
    assert(claimed_at(tape, once - 1, first.producer_id, first.producer_epoch));
    assert(claimed_at(tape, to - 1, first.producer_id, second.producer_epoch));
}

/// An announcement at an epoch that was superseded: a pass exactly if it is
/// answered with one of the two codes that tell a producer it has been fenced.
pub proof fn law_stale_epochs_are_judged(
    code: Option<ErrorCode>,
    id: Seq<char>,
    stale: i16,
    current: i16,
)
    ensures
        ({
            let verdict = server_txn::spec_judge_stale(code, id, stale, current);
            if code matches Some(c) && (c.code == 90 || c.code == 47) {
                verdict == VerdictView::Pass
            } else {
                verdict is Fail
            }
        }),
{
}

/// The first code of an answer that lists them by topic and partition.
pub open spec fn code_at(tape: Seq<Event>, i: int) -> Option<i16> {
    match verdicts::answer_at(tape, i) {
        Some(Response::Codes(codes)) => if codes@.len() > 0 && codes@[0]@.len() > 0 {
            Some(codes@[0]@[0].code)
        } else {
            None
        },
        _ => None,
    }
}

/// A pass of that check rests on the last answer, which says that the producer has
/// been fenced.
#[verifier::rlimit(60)]
#[verifier::spinoff_prover]
pub proof fn law_stale_epochs_pass(ctx: ServerCtx, tape: Seq<Event>, to: int)
    requires
        verdicts::passed(ServerCheck::TxnStaleEpochIsFenced, ctx, tape, to),
    ensures
        code_at(tape, to - 1) == Some(90i16) || code_at(tape, to - 1) == Some(47i16),
{
}

/// A write at an epoch that was superseded: a pass exactly if it is fenced, and
/// any other refusal fails as an acceptance does.
pub proof fn law_zombies_are_judged(row: ProducedRow, stale: i16, current: i16)
    ensures
        ({
            let verdict = server_txn::spec_judge_zombie(row, stale, current);
            if row.error.code == 90 || row.error.code == 47 {
                verdict == VerdictView::Pass
            } else {
                verdict is Fail
            }
        }),
{
}

/// A pass of that check rests on the write just before the suite tidies up.
#[verifier::rlimit(60)]
#[verifier::spinoff_prover]
pub proof fn law_zombies_pass(ctx: ServerCtx, tape: Seq<Event>, to: int)
    requires
        verdicts::passed(ServerCheck::TxnFencedProducerCannotProduce, ctx, tape, to),
    ensures
        verdicts::written_at(tape, to - 2) matches Some(row) && (row.error.code == 90
            || row.error.code == 47),
{
}

/// An open transaction: a pass exactly if the stable offset is below the high
/// watermark.
pub proof fn law_open_transactions_are_judged(row: FetchedRow)
    ensures
        server_txn::spec_judge_held(row) is Pass <==> row.last_stable_offset < row.high_watermark,
        server_txn::spec_judge_held(row) is Fail <==> row.last_stable_offset >= row.high_watermark,
{
}

/// A pass of that check rests on the fetch just before the transaction is ended.
#[verifier::rlimit(60)]
#[verifier::spinoff_prover]
pub proof fn law_open_transactions_pass(ctx: ServerCtx, tape: Seq<Event>, to: int)
    requires
        verdicts::passed(ServerCheck::TxnOpenTransactionHoldsTheStableOffset, ctx, tape, to),
    ensures
        verdicts::fetched_at(tape, to - 2) matches Some(row) && row.error.code == 0
            && row.last_stable_offset < row.high_watermark,
{
    let versions = txn_flows::spec_txn_versions(ctx, 0)->Ok_0;
    let (produced, written) = flows::spec_produce_flow(
        ctx,
        tape,
        0,
        "txnlso"@,
        Addressing::Name,
    )->Ok_0;
    let (id, named) = ctx::spec_fresh_txn_id(ctx, tape, written, "lso"@)->Ok_0;
    let (claim, claimed) = txn_flows::spec_init_producer_id(
        ctx,
        tape,
        named,
        versions.init,
        id,
        540,
    )->Ok_0;
    let (_, opened) = txn_flows::spec_open_transaction(
        ctx,
        tape,
        claimed,
        claim.conn,
        produced.conn,
        versions,
        txn_flows::spec_actor(id, claim),
        produced.topic,
        560,
    )->Ok_0;
    verdicts_log::lemma_settled(
        ctx,
        tape,
        opened,
        produced.conn,
        versions.fetch,
        produced.topic,
        0,
        wire::READ_COMMITTED,
        580,
        0,
        ErrorView::Infra("no fetch attempts were made"@),
    );
}

/// Whether a producer is among those whose records a reader is told to drop.
pub open spec fn drops(row: FetchedRow, producer_id: i64) -> bool {
    row.aborted matches Some(ids) && ids@.contains(producer_id)
}

/// A commit: a pass exactly if a reader was given records from beyond the first
/// of them that it is not told to drop.
pub proof fn law_commits_are_judged(
    data: Option<FetchedRow>,
    first_offset: i64,
    producer_id: i64,
    budget: u64,
)
    ensures
        ({
            let verdict = server_txn::spec_judge_commit(data, first_offset, producer_id, budget);
            if data matches Some(row) && row.last_stable_offset > first_offset && !drops(
                row,
                producer_id,
            ) && verdicts::bytes_in(row).len() > 0 {
                verdict == VerdictView::Pass
            } else {
                verdict is Fail
            }
        }),
{
    assert(!Seq::<i64>::empty().contains(producer_id));
}

/// An abort: nothing is wrong with it exactly if a reader got beyond the first
/// of its records and is told to drop them.
pub proof fn law_aborts_are_judged(
    data: Option<FetchedRow>,
    first_offset: i64,
    producer_id: i64,
    context: Seq<char>,
    budget: u64,
)
    ensures
        txn_flows::spec_judge_abort(data, first_offset, producer_id, context, budget) is None <==> (
        data matches Some(row) && row.last_stable_offset > first_offset && drops(row, producer_id)),
{
    assert(!Seq::<i64>::empty().contains(producer_id));
}

proof fn lemma_resolved(
    ctx: ServerCtx,
    tape: Seq<Event>,
    at: int,
    conn: usize,
    version: i16,
    topic: Seq<char>,
    first_offset: i64,
    base: i32,
    attempt: int,
    data: Option<FetchedRow>,
)
    requires
        data matches Some(row) ==> row.last_stable_offset <= first_offset,
    ensures
        txn_flows::spec_await_resolved(
            ctx,
            tape,
            at,
            conn,
            version,
            topic,
            first_offset,
            base,
            attempt,
            data,
        ) matches Ok((Some(row), to)) ==> (row.last_stable_offset > first_offset
            ==> verdicts::fetched_at(tape, to - 1) == Some(row) && row.error.code == 0),
    decreases ctx.config.spec_recovery_attempts() - attempt,
{
    if attempt < ctx.config.spec_recovery_attempts() {
        match tape::spec_pause_between(tape, at, attempt) {
            Ok((_, paused)) => match log_flows::spec_fetch_partition(
                tape,
                paused,
                conn,
                version,
                topic,
                0,
                first_offset,
                wire::READ_COMMITTED,
                ctx::spec_correlation(base, attempt),
            ) {
                Ok((row, next)) => {
                    if row.last_stable_offset <= first_offset {
                        lemma_resolved(
                            ctx,
                            tape,
                            next,
                            conn,
                            version,
                            topic,
                            first_offset,
                            base,
                            attempt + 1,
                            Some(row),
                        );
                    }
                },
                Err(HaltView::Broke(ErrorView::Violation(_), next)) => {
                    lemma_resolved(
                        ctx,
                        tape,
                        next,
                        conn,
                        version,
                        topic,
                        first_offset,
                        base,
                        attempt + 1,
                        data,
                    );
                },
                Err(_) => {},
            },
            Err(_) => {},
        }
    }
}

proof fn lemma_first_written(
    ctx: ServerCtx,
    tape: Seq<Event>,
    at: int,
    leader: usize,
    version: i16,
    actor: wire::TxnActorOf<Seq<char>>,
    topic: Seq<char>,
    base: i32,
    attempt: int,
    last: Seq<char>,
)
    ensures
        txn_flows::spec_first_write(
            ctx,
            tape,
            at,
            leader,
            version,
            actor,
            topic,
            base,
            attempt,
            last,
        ) matches Ok((offset, to)) ==> (verdicts::written_at(tape, to - 1) matches Some(row)
            && row.error.code == 0 && row.base_offset == offset),
    decreases ctx.config.spec_settle_attempts() - attempt,
{
    if attempt < ctx.config.spec_settle_attempts() {
        match tape::spec_pause_between(tape, at, attempt) {
            Ok((_, paused)) => match verdicts::written_at(tape, paused + 1) {
                Some(row) => {
                    lemma_first_written(
                        ctx,
                        tape,
                        paused + 2,
                        leader,
                        version,
                        actor,
                        topic,
                        base,
                        attempt + 1,
                        row.error.shown@,
                    );
                },
                None => {},
            },
            Err(_) => {},
        }
    }
}

/// A transaction that is open: its announcement was not refused, and its first
/// write was the last answer and was taken at the offset that is kept.
pub proof fn law_opened_transactions_are_written(
    ctx: ServerCtx,
    tape: Seq<Event>,
    at: int,
    txn: usize,
    leader: usize,
    versions: txn_flows::TxnVersions,
    actor: wire::TxnActorOf<Seq<char>>,
    topic: Seq<char>,
    base: i32,
)
    ensures
        txn_flows::spec_open_transaction(
            ctx,
            tape,
            at,
            txn,
            leader,
            versions,
            actor,
            topic,
            base,
        ) matches Ok((offset, to)) ==> {
            &&& verdicts::written_at(tape, to - 1) matches Some(row) && row.error.code == 0
                && row.base_offset == offset
            &&& code_at(tape, at) matches Some(code) ==> code == 0
        },
{
    lemma_first_written(
        ctx,
        tape,
        at + 1,
        leader,
        versions.produce,
        actor,
        topic,
        base,
        0,
        ""@,
    );
}

/// Whether a fetch lets a reader beyond a write that was taken.
pub open spec fn is_beyond(tape: Seq<Event>, i: int, w: int) -> bool {
    &&& verdicts::fetched_at(tape, i) matches Some(row) && row.error.code == 0 && (
    verdicts::written_at(tape, w) matches Some(written) && written.error.code == 0
        && row.last_stable_offset > written.base_offset)
}

/// Whether a producer that was claimed is one that a fetch tells a reader to
/// drop.
pub open spec fn is_dropped(tape: Seq<Event>, i: int, c: int) -> bool {
    verdicts::fetched_at(tape, i) matches Some(row) && (verdicts::answer_at(tape, c) matches Some(
        Response::InitProducerId(claim),
    ) && claim.error.code == 0 && drops(row, claim.producer_id))
}

/// Whether a request that is answered with a code alone was answered without an
/// error.
pub open spec fn is_done(tape: Seq<Event>, i: int) -> bool {
    verdicts::answer_at(tape, i) matches Some(Response::Code(code)) && code.code == 0
}

/// A pass of the abort's check rests on the last fetch: it lets a reader beyond
/// the first write of the transaction, which was ended right after it, and names
/// its producer as one to drop.
#[verifier::rlimit(60)]
#[verifier::spinoff_prover]
pub proof fn law_aborts_pass(ctx: ServerCtx, tape: Seq<Event>, to: int)
    requires
        verdicts::passed(ServerCheck::TxnAbortIsReportedToReaders, ctx, tape, to),
    ensures
        exists|w: int| #[trigger] is_beyond(tape, to - 1, w) && is_done(tape, w + 1),
        exists|c: int| #[trigger] is_dropped(tape, to - 1, c),
{
    let versions = txn_flows::spec_txn_versions(ctx, 0)->Ok_0;
    let (produced, written) = flows::spec_produce_flow(
        ctx,
        tape,
        0,
        "txnabort"@,
        Addressing::Name,
    )->Ok_0;
    let (id, named) = ctx::spec_fresh_txn_id(ctx, tape, written, "abort"@)->Ok_0;
    let (claim, claimed) = txn_flows::spec_init_producer_id(
        ctx,
        tape,
        named,
        versions.init,
        id,
        600,
    )->Ok_0;
    law_claims_are_answered(ctx, tape, named, versions.init, id, 600);
    let actor = txn_flows::spec_actor(id, claim);
    let (first, opened) = txn_flows::spec_open_transaction(
        ctx,
        tape,
        claimed,
        claim.conn,
        produced.conn,
        versions,
        actor,
        produced.topic,
        620,
    )->Ok_0;
    law_opened_transactions_are_written(
        ctx,
        tape,
        claimed,
        claim.conn,
        produced.conn,
        versions,
        actor,
        produced.topic,
        620,
    );
    lemma_marked(
        ctx,
        tape,
        opened + 1,
        produced.conn,
        versions.fetch,
        produced.topic,
        first,
        claim.producer_id,
        "the abort was acknowledged, but"@,
        660,
    );
    assert(is_beyond(tape, to - 1, opened - 1));
    assert(is_dropped(tape, to - 1, claimed - 1));
}

proof fn lemma_marked(
    ctx: ServerCtx,
    tape: Seq<Event>,
    at: int,
    conn: usize,
    version: i16,
    topic: Seq<char>,
    first_offset: i64,
    producer_id: i64,
    context: Seq<char>,
    base: i32,
)
    ensures
        txn_flows::spec_await_abort_marker(
            ctx,
            tape,
            at,
            conn,
            version,
            topic,
            first_offset,
            producer_id,
            context,
            base,
        ) matches Ok((_, to)) ==> (verdicts::fetched_at(tape, to - 1) matches Some(row)
            && row.error.code == 0 && row.last_stable_offset > first_offset && drops(
            row,
            producer_id,
        )),
{
    lemma_resolved(ctx, tape, at, conn, version, topic, first_offset, base, 0, None);
    match txn_flows::spec_await_resolved(
        ctx,
        tape,
        at,
        conn,
        version,
        topic,
        first_offset,
        base,
        0,
        None,
    ) {
        Ok((data, _)) => {
            law_aborts_are_judged(
                data,
                first_offset,
                producer_id,
                context,
                ctx.config.recovery_budget.nanos,
            );
        },
        Err(_) => {},
    }
}

/// A pass of the unannounced write rests on its refusal, or else on the last
/// fetch: it lets a reader beyond a write, and names a producer as one to drop.
#[verifier::rlimit(60)]
#[verifier::spinoff_prover]
pub proof fn law_unannounced_writes_pass(ctx: ServerCtx, tape: Seq<Event>, to: int)
    requires
        verdicts::passed(ServerCheck::TxnUnannouncedWriteStaysInTheTransaction, ctx, tape, to),
    ensures
        (verdicts::written_at(tape, to - 1) matches Some(row) && row.error.code != 0) || ((
        exists|w: int| #[trigger] is_beyond(tape, to - 1, w) && is_done(tape, w + 1)) && (
        exists|c: int| #[trigger]
            is_dropped(tape, to - 1, c))),
{
    let versions = txn_flows::spec_txn_versions(ctx, 0)->Ok_0;
    let (produced, written) = flows::spec_produce_flow(
        ctx,
        tape,
        0,
        "txnunannounced"@,
        Addressing::Name,
    )->Ok_0;
    let (id, named) = ctx::spec_fresh_txn_id(ctx, tape, written, "unannounced"@)->Ok_0;
    let (claim, claimed) = txn_flows::spec_init_producer_id(
        ctx,
        tape,
        named,
        versions.init,
        id,
        500,
    )->Ok_0;
    law_claims_are_answered(ctx, tape, named, versions.init, id, 500);
    match verdicts::written_at(tape, claimed + 1) {
        Some(row) => {
            if row.error.code == 0 {
                lemma_marked(
                    ctx,
                    tape,
                    claimed + 3,
                    produced.conn,
                    versions.fetch,
                    produced.topic,
                    row.base_offset,
                    claim.producer_id,
                    "the unannounced write was accepted, but"@,
                    540,
                );
                assert(is_beyond(tape, to - 1, claimed + 1));
                assert(is_dropped(tape, to - 1, claimed - 1));
            }
        },
        None => {},
    }
}

/// A pass of the commit's check rests on the last fetch: it lets a reader beyond
/// the first write, after which the transaction was ended, gives it records, and does not name the producer as one to
/// drop.
#[verifier::rlimit(60)]
#[verifier::spinoff_prover]
pub proof fn law_commits_pass(ctx: ServerCtx, tape: Seq<Event>, to: int)
    requires
        verdicts::passed(ServerCheck::TxnCommitIsVisibleToReaders, ctx, tape, to),
    ensures
        exists|w: int| #[trigger] is_beyond(tape, to - 1, w) && is_done(tape, w + 1),
        verdicts::fetched_at(tape, to - 1) matches Some(row) && verdicts::bytes_in(row).len() > 0
            && exists|c: int, producer_id: i64, epoch: i16| #[trigger]
            claimed_at(tape, c, producer_id, epoch) && !drops(row, producer_id),
{
    let versions = txn_flows::spec_txn_versions(ctx, 0)->Ok_0;
    let (produced, written) = flows::spec_produce_flow(
        ctx,
        tape,
        0,
        "txncommit"@,
        Addressing::Name,
    )->Ok_0;
    let (id, named) = ctx::spec_fresh_txn_id(ctx, tape, written, "commit"@)->Ok_0;
    let (claim, claimed) = txn_flows::spec_init_producer_id(
        ctx,
        tape,
        named,
        versions.init,
        id,
        980,
    )->Ok_0;
    law_claims_are_answered(ctx, tape, named, versions.init, id, 980);
    let actor = txn_flows::spec_actor(id, claim);
    let (first, opened) = txn_flows::spec_open_transaction(
        ctx,
        tape,
        claimed,
        claim.conn,
        produced.conn,
        versions,
        actor,
        produced.topic,
        1_000,
    )->Ok_0;
    law_opened_transactions_are_written(
        ctx,
        tape,
        claimed,
        claim.conn,
        produced.conn,
        versions,
        actor,
        produced.topic,
        1_000,
    );
    lemma_resolved(
        ctx,
        tape,
        opened + 1,
        produced.conn,
        versions.fetch,
        produced.topic,
        first,
        1_040,
        0,
        None,
    );
    let (data, _) = txn_flows::spec_await_resolved(
        ctx,
        tape,
        opened + 1,
        produced.conn,
        versions.fetch,
        produced.topic,
        first,
        1_040,
        0,
        None,
    )->Ok_0;
    law_commits_are_judged(data, first, claim.producer_id, ctx.config.recovery_budget.nanos);
    assert(is_beyond(tape, to - 1, opened - 1));
    assert(claimed_at(tape, claimed - 1, claim.producer_id, claim.producer_epoch));
}

proof fn lemma_offset_awaited(
    ctx: ServerCtx,
    tape: Seq<Event>,
    at: int,
    conn: usize,
    version: i16,
    group: Seq<char>,
    topic: Seq<char>,
    topic_id: TopicId,
    attempt: int,
)
    ensures
        server_txn::spec_await_txn_offset(
            ctx,
            tape,
            at,
            conn,
            version,
            group,
            topic,
            topic_id,
            attempt,
        ) matches Ok((_, to)) ==> verdicts_groups::reads_at(
            tape,
            to - 1,
            version,
            group,
            topic,
            topic_id,
            31,
        ),
    decreases ctx.config.spec_settle_attempts() - attempt,
{
    if attempt < ctx.config.spec_settle_attempts() {
        match tape::spec_pause_between(tape, at, attempt) {
            Ok((_, paused)) => {
                verdicts_groups::lemma_reads(
                    tape,
                    paused,
                    conn,
                    version,
                    group,
                    topic,
                    topic_id,
                    ctx::spec_correlation(1_160, attempt),
                );
                lemma_offset_awaited(
                    ctx,
                    tape,
                    paused + 1,
                    conn,
                    version,
                    group,
                    topic,
                    topic_id,
                    attempt + 1,
                );
            },
            Err(_) => {},
        }
    }
}

/// An offset committed inside a transaction: the check comes to a pass only if
/// the offset read before the transaction ended is another one than the 31 that
/// was committed, if the transaction was then ended, and if 31 is read last.
pub proof fn law_held_offsets_pass(
    ctx: ServerCtx,
    tape: Seq<Event>,
    at: int,
    offsets: usize,
    txn: usize,
    end_version: i16,
    fetch_version: i16,
    actor: wire::TxnActorOf<Seq<char>>,
    group: Seq<char>,
    topic: Seq<char>,
    topic_id: TopicId,
    to: int,
)
    requires
        server_txn::spec_offsets_held(
            ctx,
            tape,
            at,
            offsets,
            txn,
            end_version,
            fetch_version,
            actor,
            group,
            topic,
            topic_id,
        ) == Ok::<(VerdictView, int), HaltView>((VerdictView::Pass, to)),
    ensures
        exists|early: i64|
            early != 31 && #[trigger] verdicts_groups::reads_at(
                tape,
                at,
                fetch_version,
                group,
                topic,
                topic_id,
                early,
            ),
        verdicts::answer_at(tape, at + 1) matches Some(Response::Code(ended)) && ended.code == 0,
        verdicts_groups::reads_at(tape, to - 1, fetch_version, group, topic, topic_id, 31),
{
    verdicts_groups::lemma_reads(
        tape,
        at,
        offsets,
        fetch_version,
        group,
        topic,
        topic_id,
        1_120,
    );
    lemma_offset_awaited(
        ctx,
        tape,
        at + 2,
        offsets,
        fetch_version,
        group,
        topic,
        topic_id,
        0,
    );
}

/// Whether an offset that was committed inside a transaction is held back: the
/// group was added to it, the commit was not refused, another offset is read,
/// and the transaction is ended.
pub open spec fn holds_back(
    tape: Seq<Event>,
    k: int,
    version: i16,
    group: Seq<char>,
    topic: Seq<char>,
    topic_id: TopicId,
) -> bool {
    &&& is_done(tape, k)
    &&& code_at(tape, k + 1) matches Some(code) ==> code == 0
    &&& exists|early: i64|
        early != 31 && #[trigger] verdicts_groups::reads_at(
            tape,
            k + 2,
            version,
            group,
            topic,
            topic_id,
            early,
        )
    &&& is_done(tape, k + 3)
}

/// A pass of that check rests on a stretch in which the offset was held back, and
/// on the last answer, which gives 31 for the group.
#[verifier::rlimit(60)]
#[verifier::spinoff_prover]
pub proof fn law_transactional_offsets_pass(
    ctx: ServerCtx,
    tape: Seq<Event>,
    versions: (i16, i16),
    produced: ProducedView,
    at: int,
    to: int,
)
    requires
        verdicts::passed(ServerCheck::TxnOffsetsWaitForTheCommit, ctx, tape, to),
        server_groups::spec_offsets_versions(ctx, 0) == Ok::<(i16, i16), HaltView>(versions),
        flows::spec_produce_flow(ctx, tape, 0, "txnoffsets"@, Addressing::Name) == Ok::<
            (ProducedView, int),
            HaltView,
        >((produced, at)),
    ensures
        verdicts_groups::reads_at(
            tape,
            to - 1,
            versions.1,
            ctx.spec_check_group("txnoffsets"@),
            produced.topic,
            produced.topic_id,
            31,
        ),
        exists|k: int| #[trigger]
            holds_back(
                tape,
                k,
                versions.1,
                ctx.spec_check_group("txnoffsets"@),
                produced.topic,
                produced.topic_id,
            ),
{
    let all = txn_flows::spec_txn_versions(ctx, 0)->Ok_0;
    let group = ctx.spec_check_group("txnoffsets"@);
    let (id, named) = ctx::spec_fresh_txn_id(ctx, tape, at, "txnoffsets"@)->Ok_0;
    let (offsets, found) = group_flows::spec_coordinator_conn(ctx, tape, named, group)->Ok_0;
    let (_, known) = group_flows::spec_await_topic_known(
        ctx,
        tape,
        found,
        offsets,
        produced.topic,
        1_055,
    )->Ok_0;
    let (claim, claimed) = txn_flows::spec_init_producer_id(
        ctx,
        tape,
        known,
        all.init,
        id,
        1_060,
    )->Ok_0;
    law_held_offsets_pass(
        ctx,
        tape,
        claimed + 2,
        offsets,
        claim.conn,
        all.end,
        versions.1,
        txn_flows::spec_actor(id, claim),
        group,
        produced.topic,
        produced.topic_id,
        to,
    );
    assert(is_done(tape, claimed));
    assert(holds_back(tape, claimed, versions.1, group, produced.topic, produced.topic_id));
}

/// A batch that is sent twice passes exactly if the log grew by its two records.
pub proof fn law_retries_are_judged(
    producer_id: i64,
    first: ProducedRow,
    retry: ProducedRow,
    appended: i64,
)
    ensures
        ({
            let verdict = server_txn::spec_judge_retry(producer_id, first, retry, appended);
            if appended == 2 {
                verdict == VerdictView::Pass
            } else {
                verdict is Fail
            }
        }),
{
}

/// A pass of that check rests on the log's ends before the first write and after
/// the second: between them it grew by two records.
#[verifier::rlimit(60)]
#[verifier::spinoff_prover]
pub proof fn law_retries_pass(ctx: ServerCtx, tape: Seq<Event>, to: int)
    requires
        verdicts::passed(ServerCheck::ProduceIdempotentRetryIsDeduped, ctx, tape, to),
    ensures
        verdicts_log::offset_at(tape, to - 8) is Some,
        verdicts_log::offset_at(tape, to - 7) is Some,
        verdicts_log::offset_at(tape, to - 2) is Some,
        verdicts_log::offset_at(tape, to - 1) is Some,
        ({
            let before = verdicts_log::offset_at(tape, to - 7)->Some_0.wrapping_sub(
                verdicts_log::offset_at(tape, to - 8)->Some_0,
            );
            let after = verdicts_log::offset_at(tape, to - 1)->Some_0.wrapping_sub(
                verdicts_log::offset_at(tape, to - 2)->Some_0,
            );
            after.wrapping_sub(before) == 2
        }),
        verdicts::written_at(tape, to - 5) matches Some(row) && row.error.code == 0,
{
}

/// A gap in the sequence passes exactly if it is refused as such.
pub proof fn law_gaps_are_judged(row: ProducedRow)
    ensures
        server_txn::spec_judge_gap(row) is Pass <==> row.error.code == 45,
        server_txn::spec_judge_gap(row) is Fail <==> row.error.code != 45,
{
}

/// A pass of that check rests on two writes: the first taken, and the one beyond
/// the gap refused.
#[verifier::rlimit(60)]
#[verifier::spinoff_prover]
pub proof fn law_gaps_pass(ctx: ServerCtx, tape: Seq<Event>, to: int)
    requires
        verdicts::passed(ServerCheck::ProduceSequenceGapIsRefused, ctx, tape, to),
    ensures
        verdicts::written_at(tape, to - 3) matches Some(row) && row.error.code == 0,
        verdicts::written_at(tape, to - 1) matches Some(row) && row.error.code == 45,
{
}

} // verus!

//! Checks on transactions and idempotent producers.

use vstd::prelude::*;
use vstd::string::*;

use crate::checks::batch;
use crate::checks::batch::{ProduceStampOf, PROBE_RECORDS};
use crate::checks::ctx;
use crate::checks::ctx::ServerCtx;
use crate::checks::find;
use crate::checks::flows;
use crate::checks::flows::{Addressing, PRODUCE_NAME_MAX};
use crate::checks::group_flows;
use crate::checks::log_flows;
use crate::checks::server_groups;
use crate::checks::tape;
use crate::checks::tape::{
    doing, doing_ref, fail, skip, ErrorView, Event, Flow, FlowView, Halt, HaltView,
};
use crate::checks::txn_flows;
use crate::checks::txn_flows::{Claim, TxnVersions, TXN_INIT_MAX};
use crate::text;
use crate::text::line;
use crate::wire;
use crate::wire::{
    ErrorCode, FetchedRow, ProducedRow, TopicId, TxnActor, TxnActorOf, ADD_OFFSETS_TO_TXN,
    INIT_PRODUCER_ID, PRODUCE, READ_COMMITTED, TXN_OFFSET_COMMIT,
};
use crate::{Verdict, VerdictView};

verus! {

/// AddOffsetsToTxn versions a client may speak.
pub const ADD_OFFSETS_CLIENT_MAX: i16 = 4;
/// TxnOffsetCommit versions a client may speak.
pub const TXN_OFFSET_COMMIT_CLIENT_MAX: i16 = 4;

/// Versions for a stamped produce.
pub open spec fn spec_idempotence_versions(ctx: ServerCtx, at: int) -> Result<(i16, i16), HaltView> {
    match ctx.spec_version(
        at,
        "InitProducerId"@,
        INIT_PRODUCER_ID,
        ctx.schema.init_producer_id.min,
        TXN_INIT_MAX,
    ) {
        Err(halt) => Err(halt),
        Ok(init) => match ctx.spec_version(
            at,
            "Produce"@,
            PRODUCE,
            ctx.schema.produce.min,
            PRODUCE_NAME_MAX,
        ) {
            Err(halt) => Err(halt),
            Ok(produce) => Ok((init, produce)),
        },
    }
}

fn idempotence_versions(ctx: &ServerCtx, at: usize) -> (r: Result<(i16, i16), Halt>)
    ensures
        tape::held(r) == spec_idempotence_versions(*ctx, at as int),
{
    let init: i16 = ctx.version(
        at,
        "InitProducerId",
        INIT_PRODUCER_ID,
        ctx.schema.init_producer_id.min,
        TXN_INIT_MAX,
    )?;
    let produce: i16 = ctx.version(at, "Produce", PRODUCE, ctx.schema.produce.min, PRODUCE_NAME_MAX)?;
    Ok((init, produce))
}

fn actor_of(id: &String, claim: Claim) -> (r: TxnActor)
    ensures
        r@ == txn_flows::spec_actor(id@, claim),
{
    TxnActorOf::new(id, claim)
}

/// What a producer that takes a transactional id over is given, against what
/// its predecessor was.
pub open spec fn spec_judge_reclaim(
    id: Seq<char>,
    first_id: i64,
    first_epoch: i16,
    second_id: i64,
    second_epoch: i16,
) -> VerdictView {
    if second_id != first_id {
        VerdictView::Fail(
            "re-initializing "@ + id + " changed the producer id ("@ + text::dec(first_id as int)
                + " to "@ + text::dec(second_id as int)
                + "); the epoch is what should have moved"@,
        )
    } else if second_epoch <= first_epoch {
        VerdictView::Fail(
            "re-initializing "@ + id + " returned epoch "@ + text::dec(second_epoch as int)
                + " again (was "@ + text::dec(first_epoch as int)
                + "), so the previous producer is not fenced"@,
        )
    } else {
        VerdictView::Pass
    }
}

pub open spec fn spec_txn_init_bumps_the_epoch(
    ctx: ServerCtx,
    tape: Seq<Event>,
) -> FlowView<VerdictView> {
    match txn_flows::spec_txn_versions(ctx, 0) {
        Err(halt) => Err(halt),
        Ok(versions) => match ctx::spec_fresh_txn_id(ctx, tape, 0, "epoch"@) {
            Err(halt) => Err(halt),
            Ok((id, at)) => match tape::spec_doing(
                txn_flows::spec_init_producer_id(ctx, tape, at, versions.init, id, 400),
                "InitProducerId (first)"@,
            ) {
                Err(halt) => Err(halt),
                Ok((first, at)) => match tape::spec_doing(
                    txn_flows::spec_init_producer_id(ctx, tape, at, versions.init, id, 420),
                    "InitProducerId (second)"@,
                ) {
                    Err(halt) => Err(halt),
                    Ok((second, at)) => tape::spec_rule(
                        spec_judge_reclaim(
                            id,
                            first.producer_id,
                            first.producer_epoch,
                            second.producer_id,
                            second.producer_epoch,
                        ),
                        at,
                    ),
                },
            },
        },
    }
}

/// Hands out a newer epoch each time a transactional id is taken over: the
/// epoch is all that tells a producer from its predecessor.
pub fn txn_init_bumps_the_epoch(ctx: &ServerCtx, tape: &Vec<Event>) -> (r: Flow<Verdict>)
    ensures
        tape::ran(r) == spec_txn_init_bumps_the_epoch(*ctx, tape@),
{
    let versions: TxnVersions = txn_flows::txn_versions(ctx, 0)?;
    let (id, at) = ctx::fresh_txn_id(ctx, tape, 0, "epoch")?;
    let (first, at) = doing(
        txn_flows::init_producer_id(ctx, tape, at, versions.init, id.as_str(), 400),
        "InitProducerId (first)",
    )?;
    let (second, at) = doing(
        txn_flows::init_producer_id(ctx, tape, at, versions.init, id.as_str(), 420),
        "InitProducerId (second)",
    )?;
    if second.producer_id != first.producer_id {
        return Err(
            fail(
                line("re-initializing ").lit(id.as_str()).lit(" changed the producer id (")
                    .num(first.producer_id).lit(" to ").num(second.producer_id)
                    .lit("); the epoch is what should have moved").done(),
                at,
            ),
        );
    }
    if second.producer_epoch <= first.producer_epoch {
        return Err(
            fail(
                line("re-initializing ").lit(id.as_str()).lit(" returned epoch ")
                    .num(second.producer_epoch as i64).lit(" again (was ")
                    .num(first.producer_epoch as i64)
                    .lit("), so the previous producer is not fenced").done(),
                at,
            ),
        );
    }
    Ok((Verdict::Pass, at))
}

/// What is made of a superseded producer's bookkeeping call.
pub open spec fn spec_judge_stale(
    code: Option<ErrorCode>,
    id: Seq<char>,
    stale: i16,
    current: i16,
) -> VerdictView {
    if code is Some && txn_flows::fenced_code(code->Some_0.code) {
        VerdictView::Pass
    } else if txn_flows::fine(code) {
        VerdictView::Fail(
            "AddPartitionsToTxn at the superseded epoch "@ + text::dec(stale as int)
                + " was accepted; the producer holding "@ + id + " is epoch "@ + text::dec(
                current as int,
            ),
        )
    } else {
        VerdictView::Fail(
            "AddPartitionsToTxn at the superseded epoch "@ + text::dec(stale as int)
                + " answered "@ + code->Some_0.shown@
                + ", which does not tell the caller it has been fenced"@,
        )
    }
}

fn judge_stale(code: Option<&ErrorCode>, id: &String, stale: i16, current: i16) -> (r: Verdict)
    ensures
        r@ == spec_judge_stale(find::found(code), id@, stale, current),
{
    let code = match code {
        Some(code) => if code.is_ok() {
            None
        } else {
            Some(code)
        },
        None => None,
    };
    match code {
        None => Verdict::Fail {
            details: line("AddPartitionsToTxn at the superseded epoch ").num(stale as i64).lit(
                " was accepted; the producer holding ",
            ).lit(id.as_str()).lit(" is epoch ").num(current as i64).done(),
        },
        Some(code) => if txn_flows::is_fenced(code.code) {
            Verdict::Pass
        } else {
            Verdict::Fail {
                details: line("AddPartitionsToTxn at the superseded epoch ").num(
                    stale as i64,
                ).lit(" answered ").lit(code.shown.as_str()).lit(
                    ", which does not tell the caller it has been fenced",
                ).done(),
            }
        },
    }
}

pub open spec fn spec_txn_stale_epoch_is_fenced(
    ctx: ServerCtx,
    tape: Seq<Event>,
) -> FlowView<VerdictView> {
    match txn_flows::spec_txn_versions(ctx, 0) {
        Err(halt) => Err(halt),
        Ok(versions) => match flows::spec_produce_flow(
            ctx,
            tape,
            0,
            "txnfence"@,
            Addressing::Name,
        ) {
            Err(halt) => Err(halt),
            Ok((produced, at)) => match ctx::spec_fresh_txn_id(ctx, tape, at, "fence"@) {
                Err(halt) => Err(halt),
                Ok((id, at)) => match tape::spec_doing(
                    txn_flows::spec_init_producer_id(ctx, tape, at, versions.init, id, 440),
                    "InitProducerId (first)"@,
                ) {
                    Err(halt) => Err(halt),
                    Ok((first, at)) => match tape::spec_doing(
                        txn_flows::spec_init_producer_id(ctx, tape, at, versions.init, id, 460),
                        "InitProducerId (second)"@,
                    ) {
                        Err(halt) => Err(halt),
                        Ok((second, at)) => if second.producer_epoch <= first.producer_epoch {
                            Err(
                                tape::spec_skip(
                                    "the epoch never advanced, so there is no stale epoch to refuse (txn/init-bumps-the-epoch reports that)"@,
                                    at,
                                ),
                            )
                        } else {
                            let actor = txn_flows::spec_at_epoch(
                                txn_flows::spec_actor(id, second),
                                first.producer_epoch,
                            );
                            match tape::spec_doing(
                                txn_flows::spec_add_partitions(
                                    tape,
                                    at,
                                    second.conn,
                                    versions.add,
                                    actor,
                                    produced.topic,
                                    480,
                                ),
                                "AddPartitionsToTxn"@,
                            ) {
                                Err(halt) => Err(halt),
                                Ok((code, at)) => Ok(
                                    (
                                        spec_judge_stale(
                                            code,
                                            id,
                                            first.producer_epoch,
                                            second.producer_epoch,
                                        ),
                                        at,
                                    ),
                                ),
                            }
                        },
                    },
                },
            },
        },
    }
}

/// Refuses the requests of a producer that was replaced: a higher epoch for
/// the successor is only half of fencing.
pub fn txn_stale_epoch_is_fenced(ctx: &ServerCtx, tape: &Vec<Event>) -> (r: Flow<Verdict>)
    ensures
        tape::ran(r) == spec_txn_stale_epoch_is_fenced(*ctx, tape@),
{
    let versions: TxnVersions = txn_flows::txn_versions(ctx, 0)?;
    let (produced, at) = flows::produce_flow(ctx, tape, 0, "txnfence", Addressing::Name)?;
    let (id, at) = ctx::fresh_txn_id(ctx, tape, at, "fence")?;
    let (first, at) = doing(
        txn_flows::init_producer_id(ctx, tape, at, versions.init, id.as_str(), 440),
        "InitProducerId (first)",
    )?;
    let (second, at) = doing(
        txn_flows::init_producer_id(ctx, tape, at, versions.init, id.as_str(), 460),
        "InitProducerId (second)",
    )?;
    if second.producer_epoch <= first.producer_epoch {
        return Err(
            skip(
                String::from_str(
                    "the epoch never advanced, so there is no stale epoch to refuse (txn/init-bumps-the-epoch reports that)",
                ),
                at,
            ),
        );
    }
    let actor = actor_of(&id, second).at_epoch(first.producer_epoch);
    let (code, at) = txn_flows::doing_opt(
        txn_flows::add_partitions_to_txn(
            tape,
            at,
            second.conn,
            versions.add,
            &actor,
            produced.topic.as_str(),
            480,
        ),
        "AddPartitionsToTxn",
    )?;
    Ok((judge_stale(code, &id, first.producer_epoch, second.producer_epoch), at))
}

pub open spec fn spec_txn_unannounced_write_stays_in_the_transaction(
    ctx: ServerCtx,
    tape: Seq<Event>,
) -> FlowView<VerdictView> {
    match txn_flows::spec_txn_versions(ctx, 0) {
        Err(halt) => Err(halt),
        Ok(versions) => match flows::spec_produce_flow(
            ctx,
            tape,
            0,
            "txnunannounced"@,
            Addressing::Name,
        ) {
            Err(halt) => Err(halt),
            Ok((produced, at)) => match ctx::spec_fresh_txn_id(ctx, tape, at, "unannounced"@) {
                Err(halt) => Err(halt),
                Ok((id, at)) => match tape::spec_doing(
                    txn_flows::spec_init_producer_id(ctx, tape, at, versions.init, id, 500),
                    "InitProducerId"@,
                ) {
                    Err(halt) => Err(halt),
                    Ok((claim, at)) => {
                        let actor = txn_flows::spec_actor(id, claim);
                        match tape::spec_doing(
                            txn_flows::spec_produce_stamped(
                                tape,
                                at,
                                produced.conn,
                                versions.produce,
                                batch::spec_transactional(actor, 0),
                                produced.topic,
                                520,
                            ),
                            "Produce"@,
                        ) {
                            Err(halt) => Err(halt),
                            Ok((row, at)) => if !row.error.ok() {
                                Ok((VerdictView::Pass, at))
                            } else {
                                match tape::spec_doing(
                                    txn_flows::spec_end_txn(
                                        tape,
                                        at,
                                        claim.conn,
                                        versions.end,
                                        actor,
                                        false,
                                        530,
                                    ),
                                    "EndTxn"@,
                                ) {
                                    Err(halt) => Err(halt),
                                    Ok((ended, at)) => if !ended.ok() {
                                        Err(
                                            tape::spec_fail(
                                                "the unannounced write was accepted at offset "@
                                                    + text::dec(row.base_offset as int)
                                                    + ", then aborting the transaction answered "@
                                                    + ended.shown@
                                                    + "; those records are covered by nothing"@,
                                                at,
                                            ),
                                        )
                                    } else {
                                        match txn_flows::spec_await_abort_marker(
                                            ctx,
                                            tape,
                                            at,
                                            produced.conn,
                                            versions.fetch,
                                            produced.topic,
                                            row.base_offset,
                                            claim.producer_id,
                                            "the unannounced write was accepted, but"@,
                                            540,
                                        ) {
                                            Err(halt) => Err(halt),
                                            Ok((_, at)) => Ok((VerdictView::Pass, at)),
                                        }
                                    },
                                }
                            },
                        }
                    },
                },
            },
        },
    }
}

/// Refuses a transactional write to a partition that was not announced, or
/// takes the partition into the transaction. What it may not do is write
/// records that belong to nothing.
pub fn txn_unannounced_write_stays_in_the_transaction(
    ctx: &ServerCtx,
    tape: &Vec<Event>,
) -> (r: Flow<Verdict>)
    ensures
        tape::ran(r) == spec_txn_unannounced_write_stays_in_the_transaction(*ctx, tape@),
{
    let versions: TxnVersions = txn_flows::txn_versions(ctx, 0)?;
    let (produced, at) = flows::produce_flow(ctx, tape, 0, "txnunannounced", Addressing::Name)?;
    let (id, at) = ctx::fresh_txn_id(ctx, tape, at, "unannounced")?;
    let (claim, at) = doing(
        txn_flows::init_producer_id(ctx, tape, at, versions.init, id.as_str(), 500),
        "InitProducerId",
    )?;
    let actor = actor_of(&id, claim);
    let (row, at) = doing_ref(
        txn_flows::produce_stamped(
            tape,
            at,
            produced.conn,
            versions.produce,
            ProduceStampOf::transactional(&actor, 0),
            produced.topic.as_str(),
            520,
        ),
        "Produce",
    )?;
    if !row.error.is_ok() {
        return Ok((Verdict::Pass, at));
    }
    let (ended, at) = doing_ref(
        txn_flows::end_txn(tape, at, claim.conn, versions.end, &actor, false, 530),
        "EndTxn",
    )?;
    if !ended.is_ok() {
        return Err(
            fail(
                line("the unannounced write was accepted at offset ").num(row.base_offset)
                    .lit(", then aborting the transaction answered ").lit(ended.shown.as_str())
                    .lit("; those records are covered by nothing").done(),
                at,
            ),
        );
    }
    let (_, at) = txn_flows::await_abort_marker(
        ctx,
        tape,
        at,
        produced.conn,
        versions.fetch,
        produced.topic.as_str(),
        row.base_offset,
        claim.producer_id,
        "the unannounced write was accepted, but",
        540,
    )?;
    Ok((Verdict::Pass, at))
}

/// What a read-committed fetch says while a transaction is open.
pub open spec fn spec_judge_held(row: FetchedRow) -> VerdictView {
    if row.high_watermark <= row.last_stable_offset {
        VerdictView::Fail(
            "with a transaction open, the stable offset ("@ + text::dec(
                row.last_stable_offset as int,
            ) + ") has caught up to the high watermark ("@ + text::dec(row.high_watermark as int)
                + "); uncommitted records are being offered to read_committed consumers"@,
        )
    } else {
        VerdictView::Pass
    }
}

pub fn judge_held(row: &FetchedRow) -> (r: Verdict)
    ensures
        r@ == spec_judge_held(*row),
{
    if row.high_watermark <= row.last_stable_offset {
        Verdict::Fail {
            details: line("with a transaction open, the stable offset (").num(
                row.last_stable_offset,
            ).lit(") has caught up to the high watermark (").num(row.high_watermark).lit(
                "); uncommitted records are being offered to read_committed consumers",
            ).done(),
        }
    } else {
        Verdict::Pass
    }
}

/// Ending the transaction behind the fetch: a failed clean-up is reported
/// only where the fetch itself was sound.
pub open spec fn spec_clean_up(flow: FlowView<ErrorCode>, row: FetchedRow) -> FlowView<VerdictView> {
    match flow {
        Ok((_, at)) => Ok((spec_judge_held(row), at)),
        Err(HaltView::Broke(error, at)) => match spec_judge_held(row) {
            VerdictView::Pass => Err(
                HaltView::Broke(error.spec_context("EndTxn (cleanup)"@), at),
            ),
            verdict => Ok((verdict, at)),
        },
        Err(halt) => Err(halt),
    }
}

fn clean_up(flow: Flow<&ErrorCode>, row: &FetchedRow) -> (r: Flow<Verdict>)
    ensures
        tape::ran(r) == spec_clean_up(tape::read(flow), *row),
{
    match flow {
        Ok((_, at)) => Ok((judge_held(row), at)),
        Err(Halt::Broke(error, at)) => match judge_held(row) {
            Verdict::Pass => Err(Halt::Broke(error.context("EndTxn (cleanup)"), at)),
            verdict => Ok((verdict, at)),
        },
        Err(halt) => Err(halt),
    }
}

pub open spec fn spec_txn_open_transaction_holds_the_stable_offset(
    ctx: ServerCtx,
    tape: Seq<Event>,
) -> FlowView<VerdictView> {
    match txn_flows::spec_txn_versions(ctx, 0) {
        Err(halt) => Err(halt),
        Ok(versions) => match flows::spec_produce_flow(
            ctx,
            tape,
            0,
            "txnlso"@,
            Addressing::Name,
        ) {
            Err(halt) => Err(halt),
            Ok((produced, at)) => match ctx::spec_fresh_txn_id(ctx, tape, at, "lso"@) {
                Err(halt) => Err(halt),
                Ok((id, at)) => match tape::spec_doing(
                    txn_flows::spec_init_producer_id(ctx, tape, at, versions.init, id, 540),
                    "InitProducerId"@,
                ) {
                    Err(halt) => Err(halt),
                    Ok((claim, at)) => {
                        let actor = txn_flows::spec_actor(id, claim);
                        match txn_flows::spec_open_transaction(
                            ctx,
                            tape,
                            at,
                            claim.conn,
                            produced.conn,
                            versions,
                            actor,
                            produced.topic,
                            560,
                        ) {
                            Err(halt) => Err(halt),
                            Ok((_, at)) => match tape::spec_doing(
                                log_flows::spec_fetch_settled(
                                    ctx,
                                    tape,
                                    at,
                                    produced.conn,
                                    versions.fetch,
                                    produced.topic,
                                    0,
                                    READ_COMMITTED,
                                    580,
                                    0,
                                    ErrorView::Infra("no fetch attempts were made"@),
                                ),
                                "Fetch (read_committed)"@,
                            ) {
                                Err(halt) => Err(halt),
                                Ok((row, at)) => spec_clean_up(
                                    txn_flows::spec_end_txn(
                                        tape,
                                        at,
                                        claim.conn,
                                        versions.end,
                                        actor,
                                        false,
                                        599,
                                    ),
                                    row,
                                ),
                            },
                        }
                    },
                },
            },
        },
    }
}

/// Withholds the records of an open transaction from committed readers.
pub fn txn_open_transaction_holds_the_stable_offset(
    ctx: &ServerCtx,
    tape: &Vec<Event>,
) -> (r: Flow<Verdict>)
    ensures
        tape::ran(r) == spec_txn_open_transaction_holds_the_stable_offset(*ctx, tape@),
{
    let versions: TxnVersions = txn_flows::txn_versions(ctx, 0)?;
    let (produced, at) = flows::produce_flow(ctx, tape, 0, "txnlso", Addressing::Name)?;
    let (id, at) = ctx::fresh_txn_id(ctx, tape, at, "lso")?;
    let (claim, at) = doing(
        txn_flows::init_producer_id(ctx, tape, at, versions.init, id.as_str(), 540),
        "InitProducerId",
    )?;
    let actor = actor_of(&id, claim);
    let (_, at) = txn_flows::open_transaction(
        ctx,
        tape,
        at,
        claim.conn,
        produced.conn,
        versions,
        &actor,
        produced.topic.as_str(),
        560,
    )?;
    let (row, at) = doing_ref(
        log_flows::fetch_partition_settled(
            ctx,
            tape,
            at,
            produced.conn,
            versions.fetch,
            produced.topic.as_str(),
            0,
            READ_COMMITTED,
            580,
        ),
        "Fetch (read_committed)",
    )?;
    clean_up(txn_flows::end_txn(tape, at, claim.conn, versions.end, &actor, false, 599), row)
}

pub open spec fn spec_txn_abort_is_reported_to_readers(
    ctx: ServerCtx,
    tape: Seq<Event>,
) -> FlowView<VerdictView> {
    match txn_flows::spec_txn_versions(ctx, 0) {
        Err(halt) => Err(halt),
        Ok(versions) => match flows::spec_produce_flow(
            ctx,
            tape,
            0,
            "txnabort"@,
            Addressing::Name,
        ) {
            Err(halt) => Err(halt),
            Ok((produced, at)) => match ctx::spec_fresh_txn_id(ctx, tape, at, "abort"@) {
                Err(halt) => Err(halt),
                Ok((id, at)) => match tape::spec_doing(
                    txn_flows::spec_init_producer_id(ctx, tape, at, versions.init, id, 600),
                    "InitProducerId"@,
                ) {
                    Err(halt) => Err(halt),
                    Ok((claim, at)) => {
                        let actor = txn_flows::spec_actor(id, claim);
                        match txn_flows::spec_open_transaction(
                            ctx,
                            tape,
                            at,
                            claim.conn,
                            produced.conn,
                            versions,
                            actor,
                            produced.topic,
                            620,
                        ) {
                            Err(halt) => Err(halt),
                            Ok((first_offset, at)) => match tape::spec_doing(
                                txn_flows::spec_end_txn(
                                    tape,
                                    at,
                                    claim.conn,
                                    versions.end,
                                    actor,
                                    false,
                                    640,
                                ),
                                "EndTxn"@,
                            ) {
                                Err(halt) => Err(halt),
                                Ok((ended, at)) => if !ended.ok() {
                                    Err(
                                        tape::spec_fail(
                                            "aborting the transaction answered "@ + ended.shown@,
                                            at,
                                        ),
                                    )
                                } else {
                                    match txn_flows::spec_await_abort_marker(
                                        ctx,
                                        tape,
                                        at,
                                        produced.conn,
                                        versions.fetch,
                                        produced.topic,
                                        first_offset,
                                        claim.producer_id,
                                        "the abort was acknowledged, but"@,
                                        660,
                                    ) {
                                        Err(halt) => Err(halt),
                                        Ok((_, at)) => Ok((VerdictView::Pass, at)),
                                    }
                                },
                            },
                        }
                    },
                },
            },
        },
    }
}

/// Reports an aborted transaction as aborted: its records stay in the log,
/// and a reader drops what the list names.
pub fn txn_abort_is_reported_to_readers(ctx: &ServerCtx, tape: &Vec<Event>) -> (r: Flow<Verdict>)
    ensures
        tape::ran(r) == spec_txn_abort_is_reported_to_readers(*ctx, tape@),
{
    let versions: TxnVersions = txn_flows::txn_versions(ctx, 0)?;
    let (produced, at) = flows::produce_flow(ctx, tape, 0, "txnabort", Addressing::Name)?;
    let (id, at) = ctx::fresh_txn_id(ctx, tape, at, "abort")?;
    let (claim, at) = doing(
        txn_flows::init_producer_id(ctx, tape, at, versions.init, id.as_str(), 600),
        "InitProducerId",
    )?;
    let actor = actor_of(&id, claim);
    let (first_offset, at) = txn_flows::open_transaction(
        ctx,
        tape,
        at,
        claim.conn,
        produced.conn,
        versions,
        &actor,
        produced.topic.as_str(),
        620,
    )?;
    let (ended, at) = doing_ref(
        txn_flows::end_txn(tape, at, claim.conn, versions.end, &actor, false, 640),
        "EndTxn",
    )?;
    if !ended.is_ok() {
        return Err(fail(line("aborting the transaction answered ").lit(ended.shown.as_str()).done(), at));
    }
    let (_, at) = txn_flows::await_abort_marker(
        ctx,
        tape,
        at,
        produced.conn,
        versions.fetch,
        produced.topic.as_str(),
        first_offset,
        claim.producer_id,
        "the abort was acknowledged, but",
        660,
    )?;
    Ok((Verdict::Pass, at))
}

/// What the last read-committed fetch after a commit says.
pub open spec fn spec_judge_commit(
    data: Option<FetchedRow>,
    first_offset: i64,
    producer_id: i64,
    recovery_budget: u64,
) -> VerdictView {
    match data {
        None => VerdictView::Fail(
            "the commit was acknowledged but nothing was readable at "@ + text::dec(
                first_offset as int,
            ) + " within "@ + text::duration_text(recovery_budget)
                + ": every read_committed fetch was refused, so the commit marker never landed"@,
        ),
        Some(row) => if row.last_stable_offset <= first_offset {
            VerdictView::Fail(
                "the commit was acknowledged but the stable offset never moved past "@ + text::dec(
                    first_offset as int,
                ) + " (still "@ + text::dec(row.last_stable_offset as int)
                    + "); a read_committed consumer stays blocked on a transaction that finished"@,
            )
        } else if txn_flows::spec_aborted(row).contains(producer_id) {
            VerdictView::Fail(
                "producer "@ + text::dec(producer_id as int)
                    + " committed and is still named in the aborted list; every client reading this partition throws those records away on purpose"@,
            )
        } else if log_flows::spec_records(row).len() == 0 {
            VerdictView::Fail(
                "the transaction committed and the stable offset moved past "@ + text::dec(
                    first_offset as int,
                ) + ", but a read_committed fetch from there returns nothing"@,
            )
        } else {
            VerdictView::Pass
        },
    }
}

pub fn judge_commit(
    data: Option<&FetchedRow>,
    first_offset: i64,
    producer_id: i64,
    recovery_budget: u64,
) -> (r: Verdict)
    ensures
        r@ == spec_judge_commit(find::found(data), first_offset, producer_id, recovery_budget),
{
    let row = match data {
        None => return Verdict::Fail {
            details: line("the commit was acknowledged but nothing was readable at ").num(
                first_offset,
            ).lit(" within ").wait(recovery_budget).lit(
                ": every read_committed fetch was refused, so the commit marker never landed",
            ).done(),
        },
        Some(row) => row,
    };
    if row.last_stable_offset <= first_offset {
        return Verdict::Fail {
            details: line(
                "the commit was acknowledged but the stable offset never moved past ",
            ).num(first_offset).lit(" (still ").num(row.last_stable_offset).lit(
                "); a read_committed consumer stays blocked on a transaction that finished",
            ).done(),
        };
    }
    if txn_flows::names_aborted(row, producer_id) {
        return Verdict::Fail {
            details: line("producer ").num(producer_id).lit(
                " committed and is still named in the aborted list; every client reading this partition throws those records away on purpose",
            ).done(),
        };
    }
    if log_flows::records_of(row).len() == 0 {
        return Verdict::Fail {
            details: line(
                "the transaction committed and the stable offset moved past ",
            ).num(first_offset).lit(
                ", but a read_committed fetch from there returns nothing",
            ).done(),
        };
    }
    Verdict::Pass
}

pub open spec fn spec_txn_commit_is_visible_to_readers(
    ctx: ServerCtx,
    tape: Seq<Event>,
) -> FlowView<VerdictView> {
    match txn_flows::spec_txn_versions(ctx, 0) {
        Err(halt) => Err(halt),
        Ok(versions) => match flows::spec_produce_flow(
            ctx,
            tape,
            0,
            "txncommit"@,
            Addressing::Name,
        ) {
            Err(halt) => Err(halt),
            Ok((produced, at)) => match ctx::spec_fresh_txn_id(ctx, tape, at, "commit"@) {
                Err(halt) => Err(halt),
                Ok((id, at)) => match tape::spec_doing(
                    txn_flows::spec_init_producer_id(ctx, tape, at, versions.init, id, 980),
                    "InitProducerId"@,
                ) {
                    Err(halt) => Err(halt),
                    Ok((claim, at)) => {
                        let actor = txn_flows::spec_actor(id, claim);
                        match txn_flows::spec_open_transaction(
                            ctx,
                            tape,
                            at,
                            claim.conn,
                            produced.conn,
                            versions,
                            actor,
                            produced.topic,
                            1_000,
                        ) {
                            Err(halt) => Err(halt),
                            Ok((first_offset, at)) => match tape::spec_doing(
                                txn_flows::spec_end_txn(
                                    tape,
                                    at,
                                    claim.conn,
                                    versions.end,
                                    actor,
                                    true,
                                    1_020,
                                ),
                                "EndTxn"@,
                            ) {
                                Err(halt) => Err(halt),
                                Ok((ended, at)) => if !ended.ok() {
                                    Err(
                                        tape::spec_fail(
                                            "committing the transaction answered "@ + ended.shown@,
                                            at,
                                        ),
                                    )
                                } else {
                                    match txn_flows::spec_await_resolved(
                                        ctx,
                                        tape,
                                        at,
                                        produced.conn,
                                        versions.fetch,
                                        produced.topic,
                                        first_offset,
                                        1_040,
                                        0,
                                        None,
                                    ) {
                                        Err(halt) => Err(halt),
                                        Ok((data, at)) => Ok(
                                            (
                                                spec_judge_commit(
                                                    data,
                                                    first_offset,
                                                    claim.producer_id,
                                                    ctx.config.recovery_budget.nanos,
                                                ),
                                                at,
                                            ),
                                        ),
                                    }
                                },
                            },
                        }
                    },
                },
            },
        },
    }
}

/// Makes a committed transaction readable, and does not name it as aborted.
pub fn txn_commit_is_visible_to_readers(ctx: &ServerCtx, tape: &Vec<Event>) -> (r: Flow<Verdict>)
    ensures
        tape::ran(r) == spec_txn_commit_is_visible_to_readers(*ctx, tape@),
{
    let versions: TxnVersions = txn_flows::txn_versions(ctx, 0)?;
    let (produced, at) = flows::produce_flow(ctx, tape, 0, "txncommit", Addressing::Name)?;
    let (id, at) = ctx::fresh_txn_id(ctx, tape, at, "commit")?;
    let (claim, at) = doing(
        txn_flows::init_producer_id(ctx, tape, at, versions.init, id.as_str(), 980),
        "InitProducerId",
    )?;
    let actor = actor_of(&id, claim);
    let (first_offset, at) = txn_flows::open_transaction(
        ctx,
        tape,
        at,
        claim.conn,
        produced.conn,
        versions,
        &actor,
        produced.topic.as_str(),
        1_000,
    )?;
    let (ended, at) = doing_ref(
        txn_flows::end_txn(tape, at, claim.conn, versions.end, &actor, true, 1_020),
        "EndTxn",
    )?;
    if !ended.is_ok() {
        return Err(
            fail(
                line("committing the transaction answered ").lit(ended.shown.as_str()).done(),
                at,
            ),
        );
    }
    let (data, at) = txn_flows::await_resolved(
        ctx,
        tape,
        at,
        produced.conn,
        versions.fetch,
        produced.topic.as_str(),
        first_offset,
        1_040,
    )?;
    Ok((judge_commit(data, first_offset, claim.producer_id, ctx.config.recovery_budget.nanos), at))
}

/// The offset committed inside the transaction.
pub const TXN_COMMITTED: i64 = 31;

/// Waiting for the committed offset, from the given attempt on.
pub open spec fn spec_await_txn_offset(
    ctx: ServerCtx,
    tape: Seq<Event>,
    at: int,
    conn: usize,
    version: i16,
    group: Seq<char>,
    topic: Seq<char>,
    topic_id: TopicId,
    attempt: int,
) -> FlowView<VerdictView>
    decreases ctx.config.spec_settle_attempts() - attempt,
{
    if attempt >= ctx.config.spec_settle_attempts() {
        Err(
            tape::spec_fail(
                "the transaction committed and offset "@ + text::dec(TXN_COMMITTED as int)
                    + " never became readable; the output exists and the input still reads as unprocessed, so it will be done again"@,
                at,
            ),
        )
    } else {
        match tape::spec_pause_between(tape, at, attempt) {
            Err(halt) => Err(halt),
            Ok((_, at)) => match tape::spec_doing(
                group_flows::spec_fetch_committed(
                    tape,
                    at,
                    conn,
                    version,
                    group,
                    topic,
                    topic_id,
                    ctx::spec_correlation(1_160, attempt),
                ),
                "OffsetFetch (after commit)"@,
            ) {
                Err(halt) => Err(halt),
                Ok((got, at)) => if got == TXN_COMMITTED {
                    Ok((VerdictView::Pass, at))
                } else {
                    spec_await_txn_offset(
                        ctx,
                        tape,
                        at,
                        conn,
                        version,
                        group,
                        topic,
                        topic_id,
                        attempt + 1,
                    )
                },
            },
        }
    }
}

/// Waits for the offset of a committed transaction to become readable.
fn await_txn_offset(
    ctx: &ServerCtx,
    tape: &Vec<Event>,
    at: usize,
    conn: usize,
    version: i16,
    group: &str,
    topic: &str,
    topic_id: TopicId,
) -> (r: Flow<Verdict>)
    ensures
        tape::ran(r) == spec_await_txn_offset(
            *ctx,
            tape@,
            at as int,
            conn,
            version,
            group@,
            topic@,
            topic_id,
            0,
        ),
{
    let bound: u32 = ctx.config.settle_attempts();
    let mut here: usize = at;
    let mut attempt: u32 = 0;
    while attempt < bound
        invariant
            attempt <= bound,
            bound == ctx.config.spec_settle_attempts(),
            spec_await_txn_offset(*ctx, tape@, at as int, conn, version, group@, topic@, topic_id, 0) == spec_await_txn_offset(
                *ctx,
                tape@,
                here as int,
                conn,
                version,
                group@,
                topic@,
                topic_id,
                attempt as int,
            ),
        decreases bound - attempt,
    {
        let (_, next) = tape::pause_between(tape, here, attempt)?;
        let (got, next) = doing(
            group_flows::fetch_committed(
                tape,
                next,
                conn,
                version,
                group,
                topic,
                topic_id,
                ctx::correlation(1_160, attempt),
            ),
            "OffsetFetch (after commit)",
        )?;
        if got == TXN_COMMITTED {
            return Ok((Verdict::Pass, next));
        }
        here = next;
        attempt = attempt + 1;
    }
    Err(
        fail(
            line("the transaction committed and offset ").num(TXN_COMMITTED)
                .lit(" never became readable; the output exists and the input still reads as unprocessed, so it will be done again")
                .done(),
            here,
        ),
    )
}

/// The check from the moment both coordinators have been told of the
/// offsets: they must not be readable yet, and must be after the commit.
pub open spec fn spec_offsets_held(
    ctx: ServerCtx,
    tape: Seq<Event>,
    at: int,
    offsets: usize,
    txn: usize,
    end_version: i16,
    fetch_version: i16,
    actor: TxnActorOf<Seq<char>>,
    group: Seq<char>,
    topic: Seq<char>,
    topic_id: TopicId,
) -> FlowView<VerdictView> {
    match tape::spec_doing(
        group_flows::spec_fetch_committed(
            tape,
            at,
            offsets,
            fetch_version,
            group,
            topic,
            topic_id,
            1_120,
        ),
        "OffsetFetch (mid-transaction)"@,
    ) {
        Err(halt) => Err(halt),
        Ok((early, at)) => if early == TXN_COMMITTED {
            match txn_flows::spec_tidy_txn(tape, at, txn, end_version, actor, 1_139) {
                Err(halt) => Err(halt),
                Ok((_, at)) => Err(
                    tape::spec_fail(
                        "offset "@ + text::dec(TXN_COMMITTED as int)
                            + " was committed inside an open transaction and is already readable; the input reads as processed while the output may still be thrown away"@,
                        at,
                    ),
                ),
            }
        } else {
            match tape::spec_doing(
                txn_flows::spec_end_txn(tape, at, txn, end_version, actor, true, 1_140),
                "EndTxn"@,
            ) {
                Err(halt) => Err(halt),
                Ok((ended, at)) => if !ended.ok() {
                    Err(
                        tape::spec_fail(
                            "committing the transaction answered "@ + ended.shown@,
                            at,
                        ),
                    )
                } else {
                    spec_await_txn_offset(
                        ctx,
                        tape,
                        at,
                        offsets,
                        fetch_version,
                        group,
                        topic,
                        topic_id,
                        0,
                    )
                },
            }
        },
    }
}

fn offsets_held(
    ctx: &ServerCtx,
    tape: &Vec<Event>,
    at: usize,
    offsets: usize,
    txn: usize,
    end_version: i16,
    fetch_version: i16,
    actor: &TxnActor,
    group: &str,
    topic: &str,
    topic_id: TopicId,
) -> (r: Flow<Verdict>)
    ensures
        tape::ran(r) == spec_offsets_held(
            *ctx,
            tape@,
            at as int,
            offsets,
            txn,
            end_version,
            fetch_version,
            actor@,
            group@,
            topic@,
            topic_id,
        ),
{
    let (early, at) = doing(
        group_flows::fetch_committed(
            tape,
            at,
            offsets,
            fetch_version,
            group,
            topic,
            topic_id,
            1_120,
        ),
        "OffsetFetch (mid-transaction)",
    )?;
    if early == TXN_COMMITTED {
        let (_, at) = txn_flows::tidy_txn(tape, at, txn, end_version, actor, 1_139)?;
        return Err(
            fail(
                line("offset ").num(TXN_COMMITTED).lit(
                    " was committed inside an open transaction and is already readable; the input reads as processed while the output may still be thrown away",
                ).done(),
                at,
            ),
        );
    }
    let (ended, at) = doing_ref(
        txn_flows::end_txn(tape, at, txn, end_version, actor, true, 1_140),
        "EndTxn",
    )?;
    if !ended.is_ok() {
        return Err(
            fail(
                line("committing the transaction answered ").lit(ended.shown.as_str()).done(),
                at,
            ),
        );
    }
    await_txn_offset(ctx, tape, at, offsets, fetch_version, group, topic, topic_id)
}

/// The code of an answer that refuses: an answer that carries none counts
/// as acceptance.
pub open spec fn spec_refused(code: Option<ErrorCode>) -> Option<ErrorCode> {
    if txn_flows::fine(code) {
        None
    } else {
        code
    }
}

fn refused<'a>(code: Option<&'a ErrorCode>) -> (r: Option<&'a ErrorCode>)
    ensures
        find::found(r) == spec_refused(find::found(code)),
{
    match code {
        Some(code) => if code.is_ok() {
            None
        } else {
            Some(code)
        },
        None => None,
    }
}

pub open spec fn spec_txn_offsets_wait_for_the_commit(
    ctx: ServerCtx,
    tape: Seq<Event>,
) -> FlowView<VerdictView> {
    match txn_flows::spec_txn_versions(ctx, 0) {
        Err(halt) => Err(halt),
        Ok(versions) => match ctx.spec_version(
            0,
            "AddOffsetsToTxn"@,
            ADD_OFFSETS_TO_TXN,
            ctx.schema.add_offsets_to_txn.min,
            ADD_OFFSETS_CLIENT_MAX,
        ) {
            Err(halt) => Err(halt),
            Ok(offsets_version) => match ctx.spec_version(
                0,
                "TxnOffsetCommit"@,
                TXN_OFFSET_COMMIT,
                ctx.schema.txn_offset_commit.min,
                TXN_OFFSET_COMMIT_CLIENT_MAX,
            ) {
                Err(halt) => Err(halt),
                Ok(commit_version) => match server_groups::spec_offsets_versions(ctx, 0) {
                    Err(halt) => Err(halt),
                    Ok(pair) => match flows::spec_produce_flow(
                        ctx,
                        tape,
                        0,
                        "txnoffsets"@,
                        Addressing::Name,
                    ) {
                        Err(halt) => Err(halt),
                        Ok((produced, at)) => match ctx::spec_fresh_txn_id(
                            ctx,
                            tape,
                            at,
                            "txnoffsets"@,
                        ) {
                            Err(halt) => Err(halt),
                            Ok((id, at)) => {
                                let group = ctx.spec_check_group("txnoffsets"@);
                                match group_flows::spec_coordinator_conn(
                                    ctx,
                                    tape,
                                    at,
                                    group,
                                ) {
                                    Err(halt) => Err(halt),
                                    Ok((offsets, at)) => match group_flows::spec_await_topic_known(
                                        ctx,
                                        tape,
                                        at,
                                        offsets,
                                        produced.topic,
                                        1_055,
                                    ) {
                                        Err(halt) => Err(halt),
                                        Ok((_, at)) => match tape::spec_doing(
                                            txn_flows::spec_init_producer_id(
                                                ctx,
                                                tape,
                                                at,
                                                versions.init,
                                                id,
                                                1_060,
                                            ),
                                            "InitProducerId"@,
                                        ) {
                                            Err(halt) => Err(halt),
                                            Ok((claim, at)) => {
                                                let actor = txn_flows::spec_actor(id, claim);
                                                match tape::spec_doing(
                                                    txn_flows::spec_add_offsets(
                                                        tape,
                                                        at,
                                                        claim.conn,
                                                        offsets_version,
                                                        actor,
                                                        group,
                                                        1_080,
                                                    ),
                                                    "AddOffsetsToTxn"@,
                                                ) {
                                                    Err(halt) => Err(halt),
                                                    Ok((added, at)) => if !added.ok() {
                                                        Err(
                                                            tape::spec_fail(
                                                                "AddOffsetsToTxn answered "@ + added.shown@,
                                                                at,
                                                            ),
                                                        )
                                                    } else {
                                                        match tape::spec_doing(
                                                            txn_flows::spec_txn_offset_commit(
                                                                tape,
                                                                at,
                                                                offsets,
                                                                commit_version,
                                                                actor,
                                                                group,
                                                                produced.topic,
                                                                TXN_COMMITTED,
                                                                1_100,
                                                            ),
                                                            "TxnOffsetCommit"@,
                                                        ) {
                                                            Err(halt) => Err(halt),
                                                            Ok((committed, at)) => match spec_refused(committed) {
                                                                Some(code) => Err(
                                                                        tape::spec_fail(
                                                                            "TxnOffsetCommit answered "@
                                                                                + code.shown@,
                                                                            at,
                                                                        ),
                                                                    ),
                                                                None => spec_offsets_held(
                                                                        ctx,
                                                                        tape,
                                                                        at,
                                                                        offsets,
                                                                        claim.conn,
                                                                        versions.end,
                                                                        pair.1,
                                                                        actor,
                                                                        group,
                                                                        produced.topic,
                                                                        produced.topic_id,
                                                                    ),
                                                            },
                                                        }
                                                    },
                                                }
                                            },
                                        },
                                    },
                                }
                            },
                        },
                    },
                },
            },
        },
    }
}

/// Holds back offsets committed inside a transaction until it commits: the
/// input must not read as processed while the output may still be thrown
/// away.
pub fn txn_offsets_wait_for_the_commit(ctx: &ServerCtx, tape: &Vec<Event>) -> (r: Flow<Verdict>)
    ensures
        tape::ran(r) == spec_txn_offsets_wait_for_the_commit(*ctx, tape@),
{
    let versions: TxnVersions = txn_flows::txn_versions(ctx, 0)?;
    let offsets_version: i16 = ctx.version(
        0,
        "AddOffsetsToTxn",
        ADD_OFFSETS_TO_TXN,
        ctx.schema.add_offsets_to_txn.min,
        ADD_OFFSETS_CLIENT_MAX,
    )?;
    let commit_version: i16 = ctx.version(
        0,
        "TxnOffsetCommit",
        TXN_OFFSET_COMMIT,
        ctx.schema.txn_offset_commit.min,
        TXN_OFFSET_COMMIT_CLIENT_MAX,
    )?;
    let pair: (i16,i16) = server_groups::offsets_versions(ctx, 0)?;
    let (produced, at) = flows::produce_flow(ctx, tape, 0, "txnoffsets", Addressing::Name)?;
    let (id, at) = ctx::fresh_txn_id(ctx, tape, at, "txnoffsets")?;
    let group = ctx.check_group("txnoffsets");
    let (offsets, at) = group_flows::coordinator_conn(ctx, tape, at, group.as_str())?;
    let (_, at) = group_flows::await_topic_known(ctx, tape, at, offsets, produced.topic.as_str(), 1_055)?;
    let (claim, at) = doing(
        txn_flows::init_producer_id(ctx, tape, at, versions.init, id.as_str(), 1_060),
        "InitProducerId",
    )?;
    let actor = actor_of(&id, claim);
    let (added, at) = doing_ref(
        txn_flows::add_offsets_to_txn(
            tape,
            at,
            claim.conn,
            offsets_version,
            &actor,
            group.as_str(),
            1_080,
        ),
        "AddOffsetsToTxn",
    )?;
    if !added.is_ok() {
        return Err(fail(line("AddOffsetsToTxn answered ").lit(added.shown.as_str()).done(), at));
    }
    let (committed, at) = txn_flows::doing_opt(
        txn_flows::txn_offset_commit(
            tape,
            at,
            offsets,
            commit_version,
            &actor,
            group.as_str(),
            produced.topic.as_str(),
            TXN_COMMITTED,
            1_100,
        ),
        "TxnOffsetCommit",
    )?;
    match refused(committed) {
        Some(code) => {
            Err(fail(line("TxnOffsetCommit answered ").lit(code.shown.as_str()).done(), at))
        },
        None => {
            offsets_held(
                ctx,
                tape,
                at,
                offsets,
                claim.conn,
                versions.end,
                pair.1,
                &actor,
                group.as_str(),
                produced.topic.as_str(),
                produced.topic_id,
            )
        },
    }
}

/// What is made of a fenced producer's write.
pub open spec fn spec_judge_zombie(row: ProducedRow, stale: i16, current: i16) -> VerdictView {
    if txn_flows::fenced_code(row.error.code) {
        VerdictView::Pass
    } else if !row.error.ok() {
        VerdictView::Fail(
            "a produce at the superseded epoch "@ + text::dec(stale as int)
                + " was refused with "@ + row.error.shown@
                + " rather than a fencing code, so a zombie producer is told its stamp is wrong without being told it has been replaced"@,
        )
    } else {
        VerdictView::Fail(
            "a produce at the superseded epoch "@ + text::dec(stale as int)
                + " was accepted at offset "@ + text::dec(row.base_offset as int)
                + " while epoch "@ + text::dec(current as int)
                + " holds the id; those records sit inside a transaction the live producer is about to commit"@,
        )
    }
}

pub fn judge_zombie(row: &ProducedRow, stale: i16, current: i16) -> (r: Verdict)
    ensures
        r@ == spec_judge_zombie(*row, stale, current),
{
    if txn_flows::is_fenced(row.error.code) {
        Verdict::Pass
    } else if !row.error.is_ok() {
        Verdict::Fail {
            details: line("a produce at the superseded epoch ").num(stale as i64).lit(
                " was refused with ",
            ).lit(row.error.shown.as_str()).lit(
                " rather than a fencing code, so a zombie producer is told its stamp is wrong without being told it has been replaced",
            ).done(),
        }
    } else {
        Verdict::Fail {
            details: line("a produce at the superseded epoch ").num(stale as i64).lit(
                " was accepted at offset ",
            ).num(row.base_offset).lit(" while epoch ").num(current as i64).lit(
                " holds the id; those records sit inside a transaction the live producer is about to commit",
            ).done(),
        }
    }
}

/// The fenced producer's write, then the successor's transaction ended
/// whatever came of it, then the verdict.
pub open spec fn spec_zombie_write(
    tape: Seq<Event>,
    at: int,
    leader: usize,
    versions: TxnVersions,
    zombie: TxnActorOf<Seq<char>>,
    live: TxnActorOf<Seq<char>>,
    successor: usize,
    topic: Seq<char>,
) -> FlowView<VerdictView> {
    match tape::spec_doing(
        txn_flows::spec_produce_stamped(
            tape,
            at,
            leader,
            versions.produce,
            batch::spec_transactional(zombie, 1),
            topic,
            1_280,
        ),
        "Produce (fenced)"@,
    ) {
        Ok((row, at)) => match txn_flows::spec_tidy_txn(
            tape,
            at,
            successor,
            versions.end,
            live,
            1_299,
        ) {
            Err(halt) => Err(halt),
            Ok((_, at)) => Ok(
                (spec_judge_zombie(row, zombie.producer_epoch, live.producer_epoch), at),
            ),
        },
        Err(HaltView::Broke(error, at)) => match txn_flows::spec_tidy_txn(
            tape,
            at,
            successor,
            versions.end,
            live,
            1_299,
        ) {
            Err(halt) => Err(halt),
            Ok((_, at)) => Err(HaltView::Broke(error, at)),
        },
        Err(halt) => Err(halt),
    }
}

fn zombie_write(
    tape: &Vec<Event>,
    at: usize,
    leader: usize,
    versions: TxnVersions,
    zombie: &TxnActor,
    live: &TxnActor,
    successor: usize,
    topic: &str,
) -> (r: Flow<Verdict>)
    ensures
        tape::ran(r) == spec_zombie_write(
            tape@,
            at as int,
            leader,
            versions,
            zombie@,
            live@,
            successor,
            topic@,
        ),
{
    match doing_ref(
        txn_flows::produce_stamped(
            tape,
            at,
            leader,
            versions.produce,
            ProduceStampOf::transactional(zombie, 1),
            topic,
            1_280,
        ),
        "Produce (fenced)",
    ) {
        Ok((row, at)) => {
            let (_, at) = txn_flows::tidy_txn(tape, at, successor, versions.end, live, 1_299)?;
            Ok((judge_zombie(row, zombie.producer_epoch, live.producer_epoch), at))
        },
        Err(Halt::Broke(error, at)) => {
            let (_, at) = txn_flows::tidy_txn(tape, at, successor, versions.end, live, 1_299)?;
            Err(Halt::Broke(error, at))
        },
        Err(halt) => Err(halt),
    }
}

pub open spec fn spec_txn_fenced_producer_cannot_produce(
    ctx: ServerCtx,
    tape: Seq<Event>,
) -> FlowView<VerdictView> {
    match txn_flows::spec_txn_versions(ctx, 0) {
        Err(halt) => Err(halt),
        Ok(versions) => match flows::spec_produce_flow(
            ctx,
            tape,
            0,
            "txnzombie"@,
            Addressing::Name,
        ) {
            Err(halt) => Err(halt),
            Ok((produced, at)) => match ctx::spec_fresh_txn_id(ctx, tape, at, "zombie"@) {
                Err(halt) => Err(halt),
                Ok((id, at)) => match tape::spec_doing(
                    txn_flows::spec_init_producer_id(ctx, tape, at, versions.init, id, 1_200),
                    "InitProducerId (first)"@,
                ) {
                    Err(halt) => Err(halt),
                    Ok((first, at)) => {
                        let zombie = txn_flows::spec_actor(id, first);
                        match txn_flows::spec_open_transaction(
                            ctx,
                            tape,
                            at,
                            first.conn,
                            produced.conn,
                            versions,
                            zombie,
                            produced.topic,
                            1_220,
                        ) {
                            Err(halt) => Err(halt),
                            Ok((_, at)) => match tape::spec_doing(
                                txn_flows::spec_init_producer_id(
                                    ctx,
                                    tape,
                                    at,
                                    versions.init,
                                    id,
                                    1_260,
                                ),
                                "InitProducerId (second)"@,
                            ) {
                                Err(halt) => Err(halt),
                                Ok((second, at)) => if second.producer_epoch <= first.producer_epoch {
                                    Err(
                                        tape::spec_skip(
                                            "the epoch never advanced, so there is no fenced producer to refuse (txn/init-bumps-the-epoch reports that)"@,
                                            at,
                                        ),
                                    )
                                } else {
                                    let live = txn_flows::spec_actor(id, second);
                                    spec_zombie_write(
                                        tape,
                                        at,
                                        produced.conn,
                                        versions,
                                        zombie,
                                        live,
                                        second.conn,
                                        produced.topic,
                                    )
                                },
                            },
                        }
                    },
                },
            },
        },
    }
}

/// Refuses the records of a producer that was replaced: a leader that takes
/// them puts them inside a transaction the live producer is about to commit.
pub fn txn_fenced_producer_cannot_produce(
    ctx: &ServerCtx,
    tape: &Vec<Event>,
) -> (r: Flow<Verdict>)
    ensures
        tape::ran(r) == spec_txn_fenced_producer_cannot_produce(*ctx, tape@),
{
    let versions: TxnVersions = txn_flows::txn_versions(ctx, 0)?;
    let (produced, at) = flows::produce_flow(ctx, tape, 0, "txnzombie", Addressing::Name)?;
    let (id, at) = ctx::fresh_txn_id(ctx, tape, at, "zombie")?;
    let (first, at) = doing(
        txn_flows::init_producer_id(ctx, tape, at, versions.init, id.as_str(), 1_200),
        "InitProducerId (first)",
    )?;
    let zombie = actor_of(&id, first);
    let (_, at) = txn_flows::open_transaction(
        ctx,
        tape,
        at,
        first.conn,
        produced.conn,
        versions,
        &zombie,
        produced.topic.as_str(),
        1_220,
    )?;
    let (second, at) = doing(
        txn_flows::init_producer_id(ctx, tape, at, versions.init, id.as_str(), 1_260),
        "InitProducerId (second)",
    )?;
    if second.producer_epoch <= first.producer_epoch {
        return Err(
            skip(
                String::from_str(
                    "the epoch never advanced, so there is no fenced producer to refuse (txn/init-bumps-the-epoch reports that)",
                ),
                at,
            ),
        );
    }
    let live = actor_of(&id, second);
    zombie_write(
        tape,
        at,
        produced.conn,
        versions,
        &zombie,
        &live,
        second.conn,
        produced.topic.as_str(),
    )
}

/// By how much a batch that was sent twice grew the log.
pub open spec fn spec_judge_retry(
    producer_id: i64,
    first: ProducedRow,
    retry: ProducedRow,
    appended: i64,
) -> VerdictView {
    if appended != PROBE_RECORDS {
        VerdictView::Fail(
            "a batch of "@ + text::dec(PROBE_RECORDS as int)
                + " record(s) sent twice under producer "@ + text::dec(producer_id as int)
                + " sequence 0 grew the log by "@ + text::dec(appended as int)
                + "; the retry was appended rather than recognized (first at offset "@
                + text::dec(first.base_offset as int) + ", retry answered "@ + retry.error.shown@
                + ", offset "@ + text::dec(retry.base_offset as int) + ")"@,
        )
    } else {
        VerdictView::Pass
    }
}

pub open spec fn spec_produce_idempotent_retry_is_deduped(
    ctx: ServerCtx,
    tape: Seq<Event>,
) -> FlowView<VerdictView> {
    match spec_idempotence_versions(ctx, 0) {
        Err(halt) => Err(halt),
        Ok(versions) => match flows::spec_produce_flow(
            ctx,
            tape,
            0,
            "dedupe"@,
            Addressing::Name,
        ) {
            Err(halt) => Err(halt),
            Ok((produced, at)) => match tape::spec_doing(
                txn_flows::spec_init_idempotent(
                    ctx,
                    tape,
                    at,
                    produced.conn,
                    versions.0,
                    700,
                    0,
                    ""@,
                ),
                "InitProducerId"@,
            ) {
                Err(halt) => Err(halt),
                Ok((identity, at)) => match tape::spec_doing(
                    log_flows::spec_log_span(ctx, tape, at, produced.conn, produced.topic, 710),
                    "ListOffsets (before)"@,
                ) {
                    Err(halt) => Err(halt),
                    Ok((before, at)) => match tape::spec_doing(
                        txn_flows::spec_produce_stamped(
                            tape,
                            at,
                            produced.conn,
                            versions.1,
                            batch::spec_idempotent(identity, 0),
                            produced.topic,
                            720,
                        ),
                        "Produce (first)"@,
                    ) {
                        Err(halt) => Err(halt),
                        Ok((first, at)) => if !first.error.ok() {
                            Err(
                                tape::spec_fail(
                                    "the first stamped produce answered "@ + first.error.shown@,
                                    at,
                                ),
                            )
                        } else {
                            match tape::spec_doing(
                                txn_flows::spec_produce_stamped(
                                    tape,
                                    at,
                                    produced.conn,
                                    versions.1,
                                    batch::spec_idempotent(identity, 0),
                                    produced.topic,
                                    730,
                                ),
                                "Produce (retry)"@,
                            ) {
                                Err(halt) => Err(halt),
                                Ok((retry, at)) => match tape::spec_doing(
                                    log_flows::spec_log_span(
                                        ctx,
                                        tape,
                                        at,
                                        produced.conn,
                                        produced.topic,
                                        740,
                                    ),
                                    "ListOffsets (after)"@,
                                ) {
                                    Err(halt) => Err(halt),
                                    Ok((after, at)) => tape::spec_rule(
                                        spec_judge_retry(
                                            identity.producer_id,
                                            first,
                                            retry,
                                            after.wrapping_sub(before),
                                        ),
                                        at,
                                    ),
                                },
                            }
                        },
                    },
                },
            },
        },
    }
}

/// Stores a batch sent twice under one stamp once. How the retry is answered
/// does not matter; the count in the log does.
pub fn produce_idempotent_retry_is_deduped(
    ctx: &ServerCtx,
    tape: &Vec<Event>,
) -> (r: Flow<Verdict>)
    ensures
        tape::ran(r) == spec_produce_idempotent_retry_is_deduped(*ctx, tape@),
{
    let versions: (i16,i16) = idempotence_versions(ctx, 0)?;
    let (produced, at) = flows::produce_flow(ctx, tape, 0, "dedupe", Addressing::Name)?;
    let (identity, at) = doing_ref(
        txn_flows::init_idempotent_producer_id(ctx, tape, at, produced.conn, versions.0, 700),
        "InitProducerId",
    )?;
    let (before, at) = doing(
        log_flows::log_span(ctx, tape, at, produced.conn, produced.topic.as_str(), 710),
        "ListOffsets (before)",
    )?;
    let (first, at) = doing_ref(
        txn_flows::produce_stamped(
            tape,
            at,
            produced.conn,
            versions.1,
            ProduceStampOf::idempotent(identity, 0),
            produced.topic.as_str(),
            720,
        ),
        "Produce (first)",
    )?;
    if !first.error.is_ok() {
        return Err(
            fail(
                line("the first stamped produce answered ").lit(first.error.shown.as_str()).done(),
                at,
            ),
        );
    }
    let (retry, at) = doing_ref(
        txn_flows::produce_stamped(
            tape,
            at,
            produced.conn,
            versions.1,
            ProduceStampOf::idempotent(identity, 0),
            produced.topic.as_str(),
            730,
        ),
        "Produce (retry)",
    )?;
    let (after, at) = doing(
        log_flows::log_span(ctx, tape, at, produced.conn, produced.topic.as_str(), 740),
        "ListOffsets (after)",
    )?;
    let appended: i64 = after.wrapping_sub(before);
    if appended != PROBE_RECORDS {
        return Err(
            fail(
                line("a batch of ").num(PROBE_RECORDS).lit(" record(s) sent twice under producer ")
                    .num(identity.producer_id).lit(" sequence 0 grew the log by ").num(appended)
                    .lit("; the retry was appended rather than recognized (first at offset ")
                    .num(first.base_offset).lit(", retry answered ")
                    .lit(retry.error.shown.as_str()).lit(", offset ").num(retry.base_offset)
                    .lit(")").done(),
                at,
            ),
        );
    }
    Ok((Verdict::Pass, at))
}

/// A sequence far past the one that follows the probe batch, so that no
/// dedupe window can contain it.
pub const GAP_SEQUENCE: i32 = 52;

/// What a batch that skips ahead is told.
pub open spec fn spec_judge_gap(row: ProducedRow) -> VerdictView {
    if row.error.code == wire::OUT_OF_ORDER_SEQUENCE_NUMBER {
        VerdictView::Pass
    } else if row.error.ok() {
        VerdictView::Fail(
            "a batch stamped with sequence "@ + text::dec(GAP_SEQUENCE as int)
                + " was accepted at offset "@ + text::dec(row.base_offset as int)
                + " after a batch ending well below it; the gap was neither filled nor refused"@,
        )
    } else {
        VerdictView::Fail(
            "a batch stamped with sequence "@ + text::dec(GAP_SEQUENCE as int)
                + " was refused with "@ + row.error.shown@
                + " rather than OUT_OF_ORDER_SEQUENCE_NUMBER, which is the code that tells a producer its stamp has drifted"@,
        )
    }
}

pub open spec fn spec_produce_sequence_gap_is_refused(
    ctx: ServerCtx,
    tape: Seq<Event>,
) -> FlowView<VerdictView> {
    match spec_idempotence_versions(ctx, 0) {
        Err(halt) => Err(halt),
        Ok(versions) => match flows::spec_produce_flow(
            ctx,
            tape,
            0,
            "seqgap"@,
            Addressing::Name,
        ) {
            Err(halt) => Err(halt),
            Ok((produced, at)) => match tape::spec_doing(
                txn_flows::spec_init_idempotent(
                    ctx,
                    tape,
                    at,
                    produced.conn,
                    versions.0,
                    750,
                    0,
                    ""@,
                ),
                "InitProducerId"@,
            ) {
                Err(halt) => Err(halt),
                Ok((identity, at)) => match tape::spec_doing(
                    txn_flows::spec_produce_stamped(
                        tape,
                        at,
                        produced.conn,
                        versions.1,
                        batch::spec_idempotent(identity, 0),
                        produced.topic,
                        760,
                    ),
                    "Produce (first)"@,
                ) {
                    Err(halt) => Err(halt),
                    Ok((first, at)) => if !first.error.ok() {
                        Err(
                            tape::spec_fail(
                                "the first stamped produce answered "@ + first.error.shown@,
                                at,
                            ),
                        )
                    } else {
                        match tape::spec_doing(
                            txn_flows::spec_produce_stamped(
                                tape,
                                at,
                                produced.conn,
                                versions.1,
                                batch::spec_idempotent(identity, GAP_SEQUENCE),
                                produced.topic,
                                770,
                            ),
                            "Produce (gap)"@,
                        ) {
                            Err(halt) => Err(halt),
                            Ok((second, at)) => tape::spec_rule(spec_judge_gap(second), at),
                        }
                    },
                },
            },
        },
    }
}

/// Refuses a sequence that skips ahead: it cannot tell a batch that never
/// existed from one still in flight.
pub fn produce_sequence_gap_is_refused(ctx: &ServerCtx, tape: &Vec<Event>) -> (r: Flow<Verdict>)
    ensures
        tape::ran(r) == spec_produce_sequence_gap_is_refused(*ctx, tape@),
{
    let versions: (i16,i16) = idempotence_versions(ctx, 0)?;
    let (produced, at) = flows::produce_flow(ctx, tape, 0, "seqgap", Addressing::Name)?;
    let (identity, at) = doing_ref(
        txn_flows::init_idempotent_producer_id(ctx, tape, at, produced.conn, versions.0, 750),
        "InitProducerId",
    )?;
    let (first, at) = doing_ref(
        txn_flows::produce_stamped(
            tape,
            at,
            produced.conn,
            versions.1,
            ProduceStampOf::idempotent(identity, 0),
            produced.topic.as_str(),
            760,
        ),
        "Produce (first)",
    )?;
    if !first.error.is_ok() {
        return Err(
            fail(
                line("the first stamped produce answered ").lit(first.error.shown.as_str()).done(),
                at,
            ),
        );
    }
    let (second, at) = doing_ref(
        txn_flows::produce_stamped(
            tape,
            at,
            produced.conn,
            versions.1,
            ProduceStampOf::idempotent(identity, GAP_SEQUENCE),
            produced.topic.as_str(),
            770,
        ),
        "Produce (gap)",
    )?;
    if second.error.code == wire::OUT_OF_ORDER_SEQUENCE_NUMBER {
        return Ok((Verdict::Pass, at));
    }
    if second.error.is_ok() {
        return Err(
            fail(
                line("a batch stamped with sequence ").num(GAP_SEQUENCE as i64)
                    .lit(" was accepted at offset ").num(second.base_offset)
                    .lit(" after a batch ending well below it; the gap was neither filled nor refused")
                    .done(),
                at,
            ),
        );
    }
    Err(
        fail(
            line("a batch stamped with sequence ").num(GAP_SEQUENCE as i64)
                .lit(" was refused with ").lit(second.error.shown.as_str())
                .lit(" rather than OUT_OF_ORDER_SEQUENCE_NUMBER, which is the code that tells a producer its stamp has drifted")
                .done(),
            at,
        ),
    )
}

} // verus!

//! Runs of the checks on how transactions end.

use vstd::prelude::*;
use vstd::string::*;

use crate::checks::batch;
use crate::checks::conformance;
use crate::checks::conformance::{Setting, World};
use crate::checks::conformance_log;
use crate::checks::conformance_reads;
use crate::checks::conformance_txn;
use crate::checks::ctx;
use crate::checks::ctx::ServerCtx;
use crate::checks::flows;
use crate::checks::flows::{Addressing, ProducedView};
use crate::checks::log_flows;
use crate::checks::server::ServerCheck;
use crate::checks::server_txn;
use crate::checks::tape;
use crate::checks::tape::{ErrorView, Event, FlowView, HaltView, Label};
use crate::checks::trial;
use crate::checks::trial::Deed;
use crate::checks::txn_flows;
use crate::checks::txn_flows::{Claim, TxnVersions};
use crate::subject::Fault;
use crate::subject::laws;
use crate::subject::requests::EndTxnAskView;
use crate::subject::state::ClusterView;
use crate::subject::txn;
use crate::text;
use crate::wire;
use crate::wire::{FetchedRow, ProducedRow, TopicOf, TxnActorOf, READ_COMMITTED};
use crate::VerdictView;

verus! {

/// Whether an actor holds its transactional id.
pub open spec fn is_claimed(state: ClusterView, actor: TxnActorOf<Seq<char>>) -> bool {
    &&& actor.producer_id >= 0
    &&& state.txns.contains_key(actor.transactional_id)
    &&& state.txns[actor.transactional_id].epoch == actor.producer_epoch
    &&& state.txns[actor.transactional_id].producer_id == actor.producer_id
}

/// Whether a topic's log holds one probe batch.
pub open spec fn has_only_probe(state: ClusterView, topic: Seq<char>) -> bool {
    &&& topic.len() > 0
    &&& state.logs.contains_key((topic, 0i32))
    &&& state.logs[(topic, 0i32)].bytes.len() > 0
    &&& state.logs[(topic, 0i32)] == conformance_log::probe_log(state.logs[(topic, 0i32)].bytes)
}

/// Whether an actor's transaction has written to a topic.
pub open spec fn has_written(
    state: ClusterView,
    topic: Seq<char>,
    actor: TxnActorOf<Seq<char>>,
    open: bool,
) -> bool {
    &&& is_claimed(state, actor)
    &&& topic.len() > 0
    &&& state.logs.contains_key((topic, 0i32))
    &&& conformance_txn::is_second(state.logs[(topic, 0i32)], actor.producer_id, open)
}

/// An actor's first write.
pub proof fn lemma_transactional_write(
    setting: Setting,
    tape: Seq<Event>,
    worlds: Seq<World>,
    at: int,
    leader: usize,
    version: i16,
    actor: TxnActorOf<Seq<char>>,
    topic: Seq<char>,
    correlation: i32,
)
    requires
        trial::spares(setting.faults, Deed::Shape),
        trial::spares(setting.faults, Deed::Stamp),
        trial::spares(setting.faults, Deed::Write),
        0 <= at <= tape.len(),
        conformance::is_modern(setting.schema),
        conformance::is_up(worlds[at].state),
        conformance::is_open(worlds[at], leader),
        setting.schema.produce.min <= version <= setting.schema.produce.max,
        worlds[at].lines[leader as int].node_id == worlds[at].state.placement(topic),
        is_claimed(worlds[at].state, actor),
        has_only_probe(worlds[at].state, topic),
        forall|i: int|
            at <= i < tape.len() ==> conformance::follows(
                setting,
                tape,
                worlds,
                i,
                txn_flows::spec_produce_stamped(
                    #[trigger] tape.take(i),
                    at,
                    leader,
                    version,
                    batch::spec_transactional(actor, 0),
                    topic,
                    correlation,
                ),
            ),
    ensures
        match txn_flows::spec_produce_stamped(
            tape,
            at,
            leader,
            version,
            batch::spec_transactional(actor, 0),
            topic,
            correlation,
        ) {
            Ok((row, to)) => {
                &&& at <= to <= tape.len()
                &&& conformance::extends(worlds[at], worlds[to])
                &&& conformance::is_up(worlds[to].state)
                &&& worlds[to].state.ports == worlds[at].state.ports
                &&& row.error.ok()
                &&& row.base_offset == 2
                &&& has_written(
                    worlds[to].state,
                    topic,
                    actor,
                    conformance_txn::opens(
                        setting.faults,
                        worlds[at].state,
                        topic,
                        Some(actor.transactional_id),
                    ),
                )
                &&& forall|i: int|
                    to <= i <= tape.len() ==> txn_flows::spec_produce_stamped(
                        #[trigger] tape.take(i),
                        at,
                        leader,
                        version,
                        batch::spec_transactional(actor, 0),
                        topic,
                        correlation,
                    )
                        == Ok::<(ProducedRow, int), HaltView>((row, to))
            },
            Err(HaltView::Ask(_)) => true,
            _ => false,
        },
{
    let stamp = batch::spec_transactional(actor, 0);
    conformance_txn::lemma_produce_stamped(
        setting,
        tape,
        worlds,
        at,
        leader,
        version,
        stamp,
        topic,
        correlation,
    );
    match txn_flows::spec_produce_stamped(tape, at, leader, version, stamp, topic, correlation) {
        Ok((row, told)) => {
            let (before, after) = (worlds[at].state, worlds[told].state);
            let records = choose|records: Seq<u8>| #[trigger]
                conformance_txn::took(setting, before, after, topic, stamp, row, records);
            conformance_txn::lemma_second(
                setting,
                before,
                after,
                topic,
                stamp,
                row,
                records,
                before.logs[(topic, 0i32)].bytes,
            );
        },
        Err(_) => {},
    }
}

/// The first write is the only one where it is taken.
proof fn lemma_written_at_once(
    ctx: ServerCtx,
    tape: Seq<Event>,
    at: int,
    leader: usize,
    version: i16,
    actor: TxnActorOf<Seq<char>>,
    topic: Seq<char>,
    base: i32,
)
    requires
        match txn_flows::spec_produce_stamped(
            tape,
            at,
            leader,
            version,
            batch::spec_transactional(actor, 0),
            topic,
            ctx::spec_correlation(base.wrapping_add(10), 0),
        ) {
            Ok((row, _)) => row.error.ok(),
            Err(halt) => halt is Ask,
        },
    ensures
        txn_flows::spec_first_write(
            ctx,
            tape,
            at,
            leader,
            version,
            actor,
            topic,
            base,
            0,
            ""@,
        ) == match txn_flows::spec_produce_stamped(
            tape,
            at,
            leader,
            version,
            batch::spec_transactional(actor, 0),
            topic,
            ctx::spec_correlation(base.wrapping_add(10), 0),
        ) {
            Ok((row, at)) => Ok::<(i64, int), HaltView>((row.base_offset, at)),
            Err(halt) => Err(halt),
        },
{
}

proof fn lemma_announced_write(
    setting: Setting,
    ctx: ServerCtx,
    tape: Seq<Event>,
    worlds: Seq<World>,
    at: int,
    leader: usize,
    version: i16,
    actor: TxnActorOf<Seq<char>>,
    topic: Seq<char>,
    base: i32,
)
    requires
        trial::spares(setting.faults, Deed::Shape),
        trial::spares(setting.faults, Deed::Write),
        trial::spares(setting.faults, Deed::Stamp),
        0 <= at <= tape.len(),
        conformance::is_modern(setting.schema),
        conformance::is_up(worlds[at].state),
        conformance::is_open(worlds[at], leader),
        setting.schema.produce.min <= version <= setting.schema.produce.max,
        worlds[at].lines[leader as int].node_id == worlds[at].state.placement(topic),
        is_claimed(worlds[at].state, actor),
        has_only_probe(worlds[at].state, topic),
        worlds[at].state.txns[actor.transactional_id].partitions.contains((topic, 0i32)),
        forall|i: int|
            at <= i < tape.len() ==> conformance::follows(
                setting,
                tape,
                worlds,
                i,
                txn_flows::spec_first_write(
                    ctx,
                    #[trigger] tape.take(i),
                    at,
                    leader,
                    version,
                    actor,
                    topic,
                    base,
                    0,
                    ""@,
                ),
            ),
    ensures
        match txn_flows::spec_first_write(
            ctx,
            tape,
            at,
            leader,
            version,
            actor,
            topic,
            base,
            0,
            ""@,
        ) {
            Ok((offset, to)) => {
                &&& at <= to <= tape.len()
                &&& conformance::extends(worlds[at], worlds[to])
                &&& conformance::is_up(worlds[to].state)
                &&& worlds[to].state.ports == worlds[at].state.ports
                &&& offset == 2
                &&& has_written(worlds[to].state, topic, actor, true)
                &&& forall|i: int|
                    to <= i <= tape.len() ==> txn_flows::spec_first_write(
                        ctx,
                        #[trigger] tape.take(i),
                        at,
                        leader,
                        version,
                        actor,
                        topic,
                        base,
                        0,
                        ""@,
                    )
                        == Ok::<(i64, int), HaltView>((offset, to))
            },
            Err(HaltView::Ask(_)) => true,
            _ => false,
        },
{
    let correlation = ctx::spec_correlation(base.wrapping_add(10), 0);
    assert forall|i: int| at <= i < tape.len() implies conformance::follows(
        setting,
        tape,
        worlds,
        i,
        txn_flows::spec_produce_stamped(
            #[trigger] tape.take(i),
            at,
            leader,
            version,
            batch::spec_transactional(actor, 0),
            topic,
            ctx::spec_correlation(base.wrapping_add(10), 0),
        ),
    ) by {
        let once = txn_flows::spec_produce_stamped(
            tape.take(i),
            at,
            leader,
            version,
            batch::spec_transactional(actor, 0),
            topic,
            ctx::spec_correlation(base.wrapping_add(10), 0),
        );
        if once matches Err(halt) && halt is Ask {
            lemma_written_at_once(ctx, tape.take(i), at, leader, version, actor, topic, base);
        }
    }
    lemma_transactional_write(
        setting,
        tape,
        worlds,
        at,
        leader,
        version,
        actor,
        topic,
        correlation,
    );
    lemma_written_at_once(ctx, tape, at, leader, version, actor, topic, base);
    match txn_flows::spec_produce_stamped(
        tape,
        at,
        leader,
        version,
        batch::spec_transactional(actor, 0),
        topic,
        ctx::spec_correlation(base.wrapping_add(10), 0),
    ) {
        Ok((row, to)) => {
            assert forall|i: int| to <= i <= tape.len() implies txn_flows::spec_first_write(
                ctx,
                #[trigger] tape.take(i),
                at,
                leader,
                version,
                actor,
                topic,
                base,
                0,
                ""@,
            )
                == Ok::<(i64, int), HaltView>((row.base_offset, to)) by {
                assert(
                    txn_flows::spec_produce_stamped(
                        tape.take(i),
                        at,
                        leader,
                        version,
                        batch::spec_transactional(actor, 0),
                        topic,
                        ctx::spec_correlation(base.wrapping_add(10), 0),
                    ) == Ok::<(ProducedRow, int), HaltView>((row, to))
                );
                lemma_written_at_once(ctx, tape.take(i), at, leader, version, actor, topic, base);
            }
        },
        Err(_) => {},
    }
}

/// Announcing a partition and writing to it.
#[verifier::rlimit(30)]
pub proof fn lemma_open_transaction(
    setting: Setting,
    ctx: ServerCtx,
    tape: Seq<Event>,
    worlds: Seq<World>,
    at: int,
    claimed: usize,
    leader: usize,
    versions: TxnVersions,
    actor: TxnActorOf<Seq<char>>,
    topic: Seq<char>,
    base: i32,
)
    requires
        trial::spares(setting.faults, Deed::Shape),
        trial::spares(setting.faults, Deed::Write),
        trial::spares(setting.faults, Deed::Stamp),
        0 <= at <= tape.len(),
        conformance::is_modern(setting.schema),
        versions == conformance_txn::spoken(setting.schema),
        conformance::is_up(worlds[at].state),
        conformance::is_open(worlds[at], leader),
        conformance::is_open(worlds[at], claimed),
        worlds[at].lines[leader as int].node_id == worlds[at].state.placement(topic),
        is_claimed(worlds[at].state, actor),
        has_only_probe(worlds[at].state, topic),
        forall|i: int|
            at <= i < tape.len() ==> conformance::follows(
                setting,
                tape,
                worlds,
                i,
                txn_flows::spec_open_transaction(
                    ctx,
                    #[trigger] tape.take(i),
                    at,
                    claimed,
                    leader,
                    versions,
                    actor,
                    topic,
                    base,
                ),
            ),
    ensures
        match txn_flows::spec_open_transaction(
            ctx,
            tape,
            at,
            claimed,
            leader,
            versions,
            actor,
            topic,
            base,
        ) {
            Ok((offset, to)) => {
                &&& at <= to <= tape.len()
                &&& conformance::extends(worlds[at], worlds[to])
                &&& conformance::is_up(worlds[to].state)
                &&& worlds[to].state.ports == worlds[at].state.ports
                &&& offset == 2
                &&& has_written(worlds[to].state, topic, actor, true)
                &&& forall|i: int|
                    to <= i <= tape.len() ==> txn_flows::spec_open_transaction(
                        ctx,
                        #[trigger] tape.take(i),
                        at,
                        claimed,
                        leader,
                        versions,
                        actor,
                        topic,
                        base,
                    )
                        == Ok::<(i64, int), HaltView>((offset, to))
            },
            Err(HaltView::Ask(_)) => true,
            _ => false,
        },
{
    conformance::lemma_ranges(setting.schema);
    conformance::lemma_txn_ranges(setting.schema);
    conformance_txn::lemma_add_partitions(
        setting,
        tape,
        worlds,
        at,
        claimed,
        versions.add,
        actor,
        topic,
        base,
    );
    match txn_flows::spec_add_partitions(tape, at, claimed, versions.add, actor, topic, base) {
        Ok((code, told)) => {
            conformance_log::lemma_same_placement(worlds[at].state, worlds[told].state, topic);
            lemma_announced_write(
                setting,
                ctx,
                tape,
                worlds,
                told,
                leader,
                versions.produce,
                actor,
                topic,
                base,
            );
        },
        Err(_) => {},
    }
}

/// Whether a log's one transaction has ended.
pub open spec fn has_ended(
    state: ClusterView,
    topic: Seq<char>,
    producer_id: i64,
    committed: bool,
) -> bool {
    let log = state.logs[(topic, 0i32)];
    &&& topic.len() > 0
    &&& state.logs.contains_key((topic, 0i32))
    &&& log.next_offset > 2
    &&& log.open == Map::<i64, i64>::empty()
    &&& log.bytes.len() > 0
    &&& log.aborted == if committed {
        Seq::empty()
    } else {
        seq![(producer_id, 2i64)]
    }
}

/// What the end of a transaction makes of the log it has written to.
proof fn lemma_ended(
    faults: Seq<Fault>,
    state: ClusterView,
    topic: Seq<char>,
    actor: TxnActorOf<Seq<char>>,
    committed: bool,
    open: bool,
)
    requires
        has_written(state, topic, actor, open),
    ensures
        ({
            let (after, code) = txn::spec_end_txn(
                state,
                EndTxnAskView {
                    transactional_id: actor.transactional_id,
                    producer_epoch: actor.producer_epoch,
                    committed,
                },
                faults,
            );
            &&& code == wire::NONE
            &&& has_ended(
                after,
                topic,
                actor.producer_id,
                !(open && txn::disowned(committed, faults)),
            )
        }),
{
    let log = state.logs[(topic, 0i32)];
    let after = txn::ended_log(log, actor.producer_id, committed, faults);
    assert(after.open =~= Map::<i64, i64>::empty());
    assert(Seq::<(i64, i64)>::empty().push((actor.producer_id, 2i64)) =~= seq![
        (actor.producer_id, 2i64),
    ]);
}

/// A reader of what is committed, behind the end.
proof fn lemma_fetch_ended(
    setting: Setting,
    tape: Seq<Event>,
    worlds: Seq<World>,
    at: int,
    conn: usize,
    version: i16,
    topic: Seq<char>,
    correlation: i32,
    producer_id: i64,
    committed: bool,
)
    requires
        trial::spares(setting.faults, Deed::Read),
        0 <= at <= tape.len(),
        conformance::is_modern(setting.schema),
        conformance::is_up(worlds[at].state),
        conformance::is_open(worlds[at], conn),
        setting.schema.fetch.min <= version <= setting.schema.fetch.max,
        has_ended(worlds[at].state, topic, producer_id, committed),
        forall|i: int|
            at <= i < tape.len() ==> conformance::follows(
                setting,
                tape,
                worlds,
                i,
                log_flows::spec_fetch_partition(
                    #[trigger] tape.take(i),
                    at,
                    conn,
                    version,
                    topic,
                    0,
                    2,
                    wire::READ_COMMITTED,
                    correlation,
                ),
            ),
    ensures
        match log_flows::spec_fetch_partition(
            tape,
            at,
            conn,
            version,
            topic,
            0,
            2,
            wire::READ_COMMITTED,
            correlation,
        ) {
            Ok((row, to)) => {
                &&& at <= to <= tape.len()
                &&& row.last_stable_offset > 2
                &&& log_flows::spec_records(row).len() > 0
                &&& txn_flows::spec_aborted(row).contains(producer_id) <==> !committed
                &&& forall|i: int|
                    to <= i <= tape.len() ==> log_flows::spec_fetch_partition(
                        #[trigger] tape.take(i),
                        at,
                        conn,
                        version,
                        topic,
                        0,
                        2,
                        wire::READ_COMMITTED,
                        correlation,
                    )
                        == Ok::<(FetchedRow, int), HaltView>((row, to))
            },
            Err(HaltView::Ask(_)) => true,
            _ => false,
        },
{
    laws::law_stable_offset(worlds[at].state.logs[(topic, 0i32)], 0);
    conformance_reads::lemma_fetch(
        setting,
        tape,
        worlds,
        at,
        Label::Named("Fetch"@),
        conn,
        version,
        correlation,
        TopicOf::Name(topic),
        2,
        500,
        0,
        4_194_304,
        wire::READ_COMMITTED,
        topic,
    );
    let rows = worlds[at].state.logs[(topic, 0i32)].aborted;
    if !committed {
        assert(conformance::producers(rows)[0] == producer_id);
    }
}

/// The first fetch is the only one where the end shows in it.
proof fn lemma_resolved_at_once(
    ctx: ServerCtx,
    tape: Seq<Event>,
    at: int,
    conn: usize,
    version: i16,
    topic: Seq<char>,
    base: i32,
)
    requires
        match log_flows::spec_fetch_partition(
            tape,
            at,
            conn,
            version,
            topic,
            0,
            2,
            wire::READ_COMMITTED,
            ctx::spec_correlation(base, 0),
        ) {
            Ok((row, _)) => row.last_stable_offset > 2,
            Err(halt) => halt is Ask,
        },
    ensures
        txn_flows::spec_await_resolved(
            ctx,
            tape,
            at,
            conn,
            version,
            topic,
            2,
            base,
            0,
            None,
        ) == match log_flows::spec_fetch_partition(
            tape,
            at,
            conn,
            version,
            topic,
            0,
            2,
            wire::READ_COMMITTED,
            ctx::spec_correlation(base, 0),
        ) {
            Ok((row, at)) => Ok::<(Option<FetchedRow>, int), HaltView>((Some(row), at)),
            Err(halt) => Err(halt),
        },
{
    assert(ctx.config.spec_recovery_attempts() >= 1);
}

/// Waiting for the end to show.
proof fn lemma_await_resolved(
    setting: Setting,
    ctx: ServerCtx,
    tape: Seq<Event>,
    worlds: Seq<World>,
    at: int,
    conn: usize,
    version: i16,
    topic: Seq<char>,
    base: i32,
    producer_id: i64,
    committed: bool,
)
    requires
        trial::spares(setting.faults, Deed::Read),
        0 <= at <= tape.len(),
        conformance::is_modern(setting.schema),
        conformance::is_up(worlds[at].state),
        conformance::is_open(worlds[at], conn),
        setting.schema.fetch.min <= version <= setting.schema.fetch.max,
        has_ended(worlds[at].state, topic, producer_id, committed),
        forall|i: int|
            at <= i < tape.len() ==> conformance::follows(
                setting,
                tape,
                worlds,
                i,
                txn_flows::spec_await_resolved(
                    ctx,
                    #[trigger] tape.take(i),
                    at,
                    conn,
                    version,
                    topic,
                    2,
                    base,
                    0,
                    None,
                ),
            ),
    ensures
        match txn_flows::spec_await_resolved(
            ctx,
            tape,
            at,
            conn,
            version,
            topic,
            2,
            base,
            0,
            None,
        ) {
            Ok((data, to)) => {
                &&& at <= to <= tape.len()
                &&& data matches Some(row) && row.last_stable_offset > 2 && log_flows::spec_records(row).len() > 0 && (
                    txn_flows::spec_aborted(row).contains(producer_id) <==> !committed
                )
                &&& forall|i: int|
                    to <= i <= tape.len() ==> txn_flows::spec_await_resolved(
                        ctx,
                        #[trigger] tape.take(i),
                        at,
                        conn,
                        version,
                        topic,
                        2,
                        base,
                        0,
                        None,
                    )
                        == Ok::<(Option<FetchedRow>, int), HaltView>((data, to))
            },
            Err(HaltView::Ask(_)) => true,
            _ => false,
        },
{
    let correlation = ctx::spec_correlation(base, 0);
    assert forall|i: int| at <= i < tape.len() implies conformance::follows(
        setting,
        tape,
        worlds,
        i,
        log_flows::spec_fetch_partition(
            #[trigger] tape.take(i),
            at,
            conn,
            version,
            topic,
            0,
            2,
            wire::READ_COMMITTED,
            ctx::spec_correlation(base, 0),
        ),
    ) by {
        let once = log_flows::spec_fetch_partition(
            tape.take(i),
            at,
            conn,
            version,
            topic,
            0,
            2,
            wire::READ_COMMITTED,
            ctx::spec_correlation(base, 0),
        );
        if once matches Err(halt) && halt is Ask {
            lemma_resolved_at_once(ctx, tape.take(i), at, conn, version, topic, base);
        }
    }
    lemma_fetch_ended(
        setting,
        tape,
        worlds,
        at,
        conn,
        version,
        topic,
        correlation,
        producer_id,
        committed,
    );
    lemma_resolved_at_once(ctx, tape, at, conn, version, topic, base);
    match log_flows::spec_fetch_partition(
        tape,
        at,
        conn,
        version,
        topic,
        0,
        2,
        wire::READ_COMMITTED,
        ctx::spec_correlation(base, 0),
    ) {
        Ok((row, to)) => {
            assert forall|i: int| to <= i <= tape.len() implies txn_flows::spec_await_resolved(
                ctx,
                #[trigger] tape.take(i),
                at,
                conn,
                version,
                topic,
                2,
                base,
                0,
                None,
            )
                == Ok::<(Option<FetchedRow>, int), HaltView>((Some(row), to)) by {
                assert(
                    log_flows::spec_fetch_partition(
                        tape.take(i),
                        at,
                        conn,
                        version,
                        topic,
                        0,
                        2,
                        wire::READ_COMMITTED,
                        ctx::spec_correlation(base, 0),
                    ) == Ok::<(FetchedRow, int), HaltView>((row, to))
                );
                lemma_resolved_at_once(ctx, tape.take(i), at, conn, version, topic, base);
            }
        },
        Err(_) => {},
    }
}

/// A transaction with a write, aborted.
pub open spec fn aborted_after(
    ctx: ServerCtx,
    tape: Seq<Event>,
    at: int,
    versions: TxnVersions,
    produced: ProducedView,
    claim: Claim,
    actor: TxnActorOf<Seq<char>>,
) -> FlowView<VerdictView> {
    match txn_flows::spec_open_transaction(
        ctx,
        tape,
        at,
        claim.conn,
        produced.conn,
        versions,
        actor,
        produced.topic,
        620,
    ) {
        Err(halt) => Err(halt),
        Ok((first_offset, at)) => match tape::spec_doing(
            txn_flows::spec_end_txn(
                tape,
                at,
                claim.conn,
                versions.end,
                actor,
                false,
                640,
            ),
            "EndTxn"@,
        ) {
            Err(halt) => Err(halt),
            Ok((ended, at)) => if !ended.ok() {
                Err(
                    tape::spec_fail(
                        "aborting the transaction answered "@ + ended.shown@,
                        at,
                    ),
                )
            } else {
                match txn_flows::spec_await_abort_marker(
                    ctx,
                    tape,
                    at,
                    produced.conn,
                    versions.fetch,
                    produced.topic,
                    first_offset,
                    claim.producer_id,
                    "the abort was acknowledged, but"@,
                    660,
                ) {
                    Err(halt) => Err(halt),
                    Ok((_, at)) => Ok((VerdictView::Pass, at)),
                }
            },
        },
    }
}

/// A transaction with a write, committed.
pub open spec fn committed_after(
    ctx: ServerCtx,
    tape: Seq<Event>,
    at: int,
    versions: TxnVersions,
    produced: ProducedView,
    claim: Claim,
    actor: TxnActorOf<Seq<char>>,
) -> FlowView<VerdictView> {
    match txn_flows::spec_open_transaction(
        ctx,
        tape,
        at,
        claim.conn,
        produced.conn,
        versions,
        actor,
        produced.topic,
        1_000,
    ) {
        Err(halt) => Err(halt),
        Ok((first_offset, at)) => match tape::spec_doing(
            txn_flows::spec_end_txn(
                tape,
                at,
                claim.conn,
                versions.end,
                actor,
                true,
                1_020,
            ),
            "EndTxn"@,
        ) {
            Err(halt) => Err(halt),
            Ok((ended, at)) => if !ended.ok() {
                Err(
                    tape::spec_fail(
                        "committing the transaction answered "@ + ended.shown@,
                        at,
                    ),
                )
            } else {
                match txn_flows::spec_await_resolved(
                    ctx,
                    tape,
                    at,
                    produced.conn,
                    versions.fetch,
                    produced.topic,
                    first_offset,
                    1_040,
                    0,
                    None,
                ) {
                    Err(halt) => Err(halt),
                    Ok((data, at)) => Ok(
                        (
                            server_txn::spec_judge_commit(
                                data,
                                first_offset,
                                claim.producer_id,
                                ctx.config.recovery_budget.nanos,
                            ),
                            at,
                        ),
                    ),
                }
            },
        },
    }
}

/// A write that was not announced, aborted.
pub open spec fn unannounced_after(
    ctx: ServerCtx,
    tape: Seq<Event>,
    at: int,
    versions: TxnVersions,
    produced: ProducedView,
    claim: Claim,
    actor: TxnActorOf<Seq<char>>,
) -> FlowView<VerdictView> {
    match tape::spec_doing(
        txn_flows::spec_produce_stamped(
            tape,
            at,
            produced.conn,
            versions.produce,
            batch::spec_transactional(actor, 0),
            produced.topic,
            520,
        ),
        "Produce"@,
    ) {
        Err(halt) => Err(halt),
        Ok((row, at)) => if !row.error.ok() {
            Ok((VerdictView::Pass, at))
        } else {
            match tape::spec_doing(
                txn_flows::spec_end_txn(
                    tape,
                    at,
                    claim.conn,
                    versions.end,
                    actor,
                    false,
                    530,
                ),
                "EndTxn"@,
            ) {
                Err(halt) => Err(halt),
                Ok((ended, at)) => if !ended.ok() {
                    Err(
                        tape::spec_fail(
                            "the unannounced write was accepted at offset "@
                                + text::dec(row.base_offset as int)
                                + ", then aborting the transaction answered "@
                                + ended.shown@
                                + "; those records are covered by nothing"@,
                            at,
                        ),
                    )
                } else {
                    match txn_flows::spec_await_abort_marker(
                        ctx,
                        tape,
                        at,
                        produced.conn,
                        versions.fetch,
                        produced.topic,
                        row.base_offset,
                        claim.producer_id,
                        "the unannounced write was accepted, but"@,
                        540,
                    ) {
                        Err(halt) => Err(halt),
                        Ok((_, at)) => Ok((VerdictView::Pass, at)),
                    }
                },
            }
        },
    }
}

#[verifier::rlimit(30)]
proof fn lemma_aborted_after(
    setting: Setting,
    ctx: ServerCtx,
    tape: Seq<Event>,
    worlds: Seq<World>,
    at: int,
    versions: TxnVersions,
    produced: ProducedView,
    claim: Claim,
    actor: TxnActorOf<Seq<char>>,
)
    requires
        trial::spares(setting.faults, Deed::Shape),
        trial::spares(setting.faults, Deed::Write),
        trial::spares(setting.faults, Deed::Stamp),
        trial::spares(setting.faults, Deed::Read),
        trial::is_trial(ServerCheck::TxnAbortIsReportedToReaders, setting.faults),
        0 <= at <= tape.len(),
        conformance::is_modern(setting.schema),
        versions == conformance_txn::spoken(setting.schema),
        conformance::is_up(worlds[at].state),
        conformance::is_open(worlds[at], produced.conn),
        conformance::is_open(worlds[at], claim.conn),
        worlds[at].lines[produced.conn as int].node_id == worlds[at].state.placement(produced.topic),
        is_claimed(worlds[at].state, actor),
        has_only_probe(worlds[at].state, produced.topic),
        actor.producer_id == claim.producer_id,
        forall|i: int|
            at <= i < tape.len() ==> conformance::follows(
                setting,
                tape,
                worlds,
                i,
                aborted_after(ctx, #[trigger] tape.take(i), at, versions, produced, claim, actor),
            ),
    ensures
        trial::judged(
            setting.faults,
            aborted_after(ctx, tape, at, versions, produced, claim, actor),
        ),
{
    conformance::lemma_ranges(setting.schema);
    conformance::lemma_txn_ranges(setting.schema);
    lemma_open_transaction(
        setting,
        ctx,
        tape,
        worlds,
        at,
        claim.conn,
        produced.conn,
        versions,
        actor,
        produced.topic,
        620,
    );
    match txn_flows::spec_open_transaction(
        ctx,
        tape,
        at,
        claim.conn,
        produced.conn,
        versions,
        actor,
        produced.topic,
        620,
    ) {
        Ok((_, wrote)) => {
            lemma_ended(setting.faults, worlds[wrote].state, produced.topic, actor, false, true);
            conformance_txn::lemma_end_txn(
                setting,
                tape,
                worlds,
                wrote,
                claim.conn,
                versions.end,
                actor,
                false,
                640,
            );
            match txn_flows::spec_end_txn(
                tape,
                wrote,
                claim.conn,
                versions.end,
                actor,
                false,
                640,
            ) {
                Ok((_, over)) => {
                    lemma_await_resolved(
                        setting,
                        ctx,
                        tape,
                        worlds,
                        over,
                        produced.conn,
                        versions.fetch,
                        produced.topic,
                        660,
                        claim.producer_id,
                        !txn::disowned(false, setting.faults),
                    );
                },
                Err(_) => {},
            }
        },
        Err(_) => {},
    }
}

#[verifier::rlimit(30)]
proof fn lemma_committed_after(
    setting: Setting,
    ctx: ServerCtx,
    tape: Seq<Event>,
    worlds: Seq<World>,
    at: int,
    versions: TxnVersions,
    produced: ProducedView,
    claim: Claim,
    actor: TxnActorOf<Seq<char>>,
)
    requires
        trial::spares(setting.faults, Deed::Shape),
        trial::spares(setting.faults, Deed::Write),
        trial::spares(setting.faults, Deed::Stamp),
        trial::spares(setting.faults, Deed::Read),
        trial::is_trial(ServerCheck::TxnCommitIsVisibleToReaders, setting.faults),
        0 <= at <= tape.len(),
        conformance::is_modern(setting.schema),
        versions == conformance_txn::spoken(setting.schema),
        conformance::is_up(worlds[at].state),
        conformance::is_open(worlds[at], produced.conn),
        conformance::is_open(worlds[at], claim.conn),
        worlds[at].lines[produced.conn as int].node_id == worlds[at].state.placement(produced.topic),
        is_claimed(worlds[at].state, actor),
        has_only_probe(worlds[at].state, produced.topic),
        actor.producer_id == claim.producer_id,
        forall|i: int|
            at <= i < tape.len() ==> conformance::follows(
                setting,
                tape,
                worlds,
                i,
                committed_after(ctx, #[trigger] tape.take(i), at, versions, produced, claim, actor),
            ),
    ensures
        trial::judged(
            setting.faults,
            committed_after(ctx, tape, at, versions, produced, claim, actor),
        ),
{
    conformance::lemma_ranges(setting.schema);
    conformance::lemma_txn_ranges(setting.schema);
    lemma_open_transaction(
        setting,
        ctx,
        tape,
        worlds,
        at,
        claim.conn,
        produced.conn,
        versions,
        actor,
        produced.topic,
        1_000,
    );
    match txn_flows::spec_open_transaction(
        ctx,
        tape,
        at,
        claim.conn,
        produced.conn,
        versions,
        actor,
        produced.topic,
        1_000,
    ) {
        Ok((_, wrote)) => {
            lemma_ended(setting.faults, worlds[wrote].state, produced.topic, actor, true, true);
            conformance_txn::lemma_end_txn(
                setting,
                tape,
                worlds,
                wrote,
                claim.conn,
                versions.end,
                actor,
                true,
                1_020,
            );
            match txn_flows::spec_end_txn(
                tape,
                wrote,
                claim.conn,
                versions.end,
                actor,
                true,
                1_020,
            ) {
                Ok((_, over)) => {
                    lemma_await_resolved(
                        setting,
                        ctx,
                        tape,
                        worlds,
                        over,
                        produced.conn,
                        versions.fetch,
                        produced.topic,
                        1_040,
                        claim.producer_id,
                        !txn::disowned(true, setting.faults),
                    );
                },
                Err(_) => {},
            }
        },
        Err(_) => {},
    }
}

#[verifier::rlimit(30)]
proof fn lemma_unannounced_after(
    setting: Setting,
    ctx: ServerCtx,
    tape: Seq<Event>,
    worlds: Seq<World>,
    at: int,
    versions: TxnVersions,
    produced: ProducedView,
    claim: Claim,
    actor: TxnActorOf<Seq<char>>,
)
    requires
        trial::spares(setting.faults, Deed::Shape),
        trial::spares(setting.faults, Deed::Stamp),
        trial::spares(setting.faults, Deed::Read),
        trial::is_trial(ServerCheck::TxnUnannouncedWriteStaysInTheTransaction, setting.faults),
        trial::spares(setting.faults, Deed::Write),
        0 <= at <= tape.len(),
        conformance::is_modern(setting.schema),
        versions == conformance_txn::spoken(setting.schema),
        conformance::is_up(worlds[at].state),
        conformance::is_open(worlds[at], produced.conn),
        conformance::is_open(worlds[at], claim.conn),
        worlds[at].lines[produced.conn as int].node_id == worlds[at].state.placement(produced.topic),
        is_claimed(worlds[at].state, actor),
        has_only_probe(worlds[at].state, produced.topic),
        actor.producer_id == claim.producer_id,
        !worlds[at].state.txns[actor.transactional_id].partitions.contains((produced.topic, 0i32)),
        forall|i: int|
            at <= i < tape.len() ==> conformance::follows(
                setting,
                tape,
                worlds,
                i,
                unannounced_after(
                    ctx,
                    #[trigger] tape.take(i),
                    at,
                    versions,
                    produced,
                    claim,
                    actor,
                ),
            ),
    ensures
        trial::judged(
            setting.faults,
            unannounced_after(ctx, tape, at, versions, produced, claim, actor),
        ),
{
    conformance::lemma_ranges(setting.schema);
    conformance::lemma_txn_ranges(setting.schema);
    lemma_transactional_write(
        setting,
        tape,
        worlds,
        at,
        produced.conn,
        versions.produce,
        actor,
        produced.topic,
        520,
    );
    match txn_flows::spec_produce_stamped(
        tape,
        at,
        produced.conn,
        versions.produce,
        batch::spec_transactional(actor, 0),
        produced.topic,
        520,
    ) {
        Ok((_, wrote)) => {
            let open = conformance_txn::opens(
                setting.faults,
                worlds[at].state,
                produced.topic,
                Some(actor.transactional_id),
            );
            lemma_ended(setting.faults, worlds[wrote].state, produced.topic, actor, false, open);
            conformance_txn::lemma_end_txn(
                setting,
                tape,
                worlds,
                wrote,
                claim.conn,
                versions.end,
                actor,
                false,
                530,
            );
            match txn_flows::spec_end_txn(
                tape,
                wrote,
                claim.conn,
                versions.end,
                actor,
                false,
                530,
            ) {
                Ok((_, over)) => {
                    lemma_await_resolved(
                        setting,
                        ctx,
                        tape,
                        worlds,
                        over,
                        produced.conn,
                        versions.fetch,
                        produced.topic,
                        540,
                        claim.producer_id,
                        !open,
                    );
                },
                Err(_) => {},
            }
        },
        Err(_) => {},
    }
}

/// The first fetch is the only one where it is answered.
proof fn lemma_settled_at_once(
    ctx: ServerCtx,
    tape: Seq<Event>,
    at: int,
    conn: usize,
    version: i16,
    topic: Seq<char>,
    base: i32,
    last: ErrorView,
)
    requires
        log_flows::spec_fetch_partition(
            tape,
            at,
            conn,
            version,
            topic,
            0,
            0,
            wire::READ_COMMITTED,
            ctx::spec_correlation(base, 0),
        ) matches Err(halt) ==> halt is Ask,
    ensures
        log_flows::spec_fetch_settled(
            ctx,
            tape,
            at,
            conn,
            version,
            topic,
            0,
            wire::READ_COMMITTED,
            base,
            0,
            last,
        ) == log_flows::spec_fetch_partition(
            tape,
            at,
            conn,
            version,
            topic,
            0,
            0,
            wire::READ_COMMITTED,
            ctx::spec_correlation(base, 0),
        ),
{
    assert(ctx.config.spec_settle_attempts() >= 1);
}

/// A reader of what is committed, while a transaction is open.
proof fn lemma_fetch_open(
    setting: Setting,
    tape: Seq<Event>,
    worlds: Seq<World>,
    at: int,
    conn: usize,
    version: i16,
    topic: Seq<char>,
    correlation: i32,
    actor: TxnActorOf<Seq<char>>,
)
    requires
        trial::spares(setting.faults, Deed::Read),
        0 <= at <= tape.len(),
        conformance::is_modern(setting.schema),
        conformance::is_up(worlds[at].state),
        conformance::is_open(worlds[at], conn),
        setting.schema.fetch.min <= version <= setting.schema.fetch.max,
        has_written(worlds[at].state, topic, actor, true),
        forall|i: int|
            at <= i < tape.len() ==> conformance::follows(
                setting,
                tape,
                worlds,
                i,
                log_flows::spec_fetch_partition(
                    #[trigger] tape.take(i),
                    at,
                    conn,
                    version,
                    topic,
                    0,
                    0,
                    wire::READ_COMMITTED,
                    correlation,
                ),
            ),
    ensures
        match log_flows::spec_fetch_partition(
            tape,
            at,
            conn,
            version,
            topic,
            0,
            0,
            wire::READ_COMMITTED,
            correlation,
        ) {
            Ok((row, to)) => {
                &&& at <= to <= tape.len()
                &&& worlds[to] == worlds[at]
                &&& trial::deserved(
                    !setting.faults.contains(Fault::TxnStableOffsetIgnoresOpenTxn),
                    server_txn::spec_judge_held(row),
                )
                &&& forall|i: int|
                    to <= i <= tape.len() ==> log_flows::spec_fetch_partition(
                        #[trigger] tape.take(i),
                        at,
                        conn,
                        version,
                        topic,
                        0,
                        0,
                        wire::READ_COMMITTED,
                        correlation,
                    )
                        == Ok::<(FetchedRow, int), HaltView>((row, to))
            },
            Err(HaltView::Ask(_)) => true,
            _ => false,
        },
{
    laws::law_stable_offset(worlds[at].state.logs[(topic, 0i32)], actor.producer_id);
    conformance_reads::lemma_fetch(
        setting,
        tape,
        worlds,
        at,
        Label::Named("Fetch"@),
        conn,
        version,
        correlation,
        TopicOf::Name(topic),
        0,
        500,
        0,
        4_194_304,
        wire::READ_COMMITTED,
        topic,
    );
}

proof fn lemma_fetch_settled(
    setting: Setting,
    ctx: ServerCtx,
    tape: Seq<Event>,
    worlds: Seq<World>,
    at: int,
    conn: usize,
    version: i16,
    topic: Seq<char>,
    base: i32,
    last: ErrorView,
    actor: TxnActorOf<Seq<char>>,
)
    requires
        trial::spares(setting.faults, Deed::Read),
        0 <= at <= tape.len(),
        conformance::is_modern(setting.schema),
        conformance::is_up(worlds[at].state),
        conformance::is_open(worlds[at], conn),
        setting.schema.fetch.min <= version <= setting.schema.fetch.max,
        has_written(worlds[at].state, topic, actor, true),
        forall|i: int|
            at <= i < tape.len() ==> conformance::follows(
                setting,
                tape,
                worlds,
                i,
                log_flows::spec_fetch_settled(
                    ctx,
                    #[trigger] tape.take(i),
                    at,
                    conn,
                    version,
                    topic,
                    0,
                    wire::READ_COMMITTED,
                    base,
                    0,
                    last,
                ),
            ),
    ensures
        match log_flows::spec_fetch_settled(
            ctx,
            tape,
            at,
            conn,
            version,
            topic,
            0,
            wire::READ_COMMITTED,
            base,
            0,
            last,
        ) {
            Ok((row, to)) => {
                &&& at <= to <= tape.len()
                &&& worlds[to] == worlds[at]
                &&& trial::deserved(
                    !setting.faults.contains(Fault::TxnStableOffsetIgnoresOpenTxn),
                    server_txn::spec_judge_held(row),
                )
                &&& forall|i: int|
                    to <= i <= tape.len() ==> log_flows::spec_fetch_settled(
                        ctx,
                        #[trigger] tape.take(i),
                        at,
                        conn,
                        version,
                        topic,
                        0,
                        wire::READ_COMMITTED,
                        base,
                        0,
                        last,
                    )
                        == Ok::<(FetchedRow, int), HaltView>((row, to))
            },
            Err(HaltView::Ask(_)) => true,
            _ => false,
        },
{
    let correlation = ctx::spec_correlation(base, 0);
    assert forall|i: int| at <= i < tape.len() implies conformance::follows(
        setting,
        tape,
        worlds,
        i,
        log_flows::spec_fetch_partition(
            #[trigger] tape.take(i),
            at,
            conn,
            version,
            topic,
            0,
            0,
            wire::READ_COMMITTED,
            ctx::spec_correlation(base, 0),
        ),
    ) by {
        let once = log_flows::spec_fetch_partition(
            tape.take(i),
            at,
            conn,
            version,
            topic,
            0,
            0,
            wire::READ_COMMITTED,
            ctx::spec_correlation(base, 0),
        );
        if once matches Err(halt) && halt is Ask {
            lemma_settled_at_once(ctx, tape.take(i), at, conn, version, topic, base, last);
        }
    }
    lemma_fetch_open(setting, tape, worlds, at, conn, version, topic, correlation, actor);
    lemma_settled_at_once(ctx, tape, at, conn, version, topic, base, last);
    match log_flows::spec_fetch_partition(
        tape,
        at,
        conn,
        version,
        topic,
        0,
        0,
        wire::READ_COMMITTED,
        ctx::spec_correlation(base, 0),
    ) {
        Ok((row, to)) => {
            assert forall|i: int| to <= i <= tape.len() implies log_flows::spec_fetch_settled(
                ctx,
                #[trigger] tape.take(i),
                at,
                conn,
                version,
                topic,
                0,
                wire::READ_COMMITTED,
                base,
                0,
                last,
            )
                == Ok::<(FetchedRow, int), HaltView>((row, to)) by {
                assert(
                    log_flows::spec_fetch_partition(
                        tape.take(i),
                        at,
                        conn,
                        version,
                        topic,
                        0,
                        0,
                        wire::READ_COMMITTED,
                        ctx::spec_correlation(base, 0),
                    ) == Ok::<(FetchedRow, int), HaltView>((row, to))
                );
                lemma_settled_at_once(ctx, tape.take(i), at, conn, version, topic, base, last);
            }
        },
        Err(_) => {},
    }
}

/// A transaction with a write, looked at while it is open.
pub open spec fn held_after(
    ctx: ServerCtx,
    tape: Seq<Event>,
    at: int,
    versions: TxnVersions,
    produced: ProducedView,
    claim: Claim,
    actor: TxnActorOf<Seq<char>>,
) -> FlowView<VerdictView> {
    match txn_flows::spec_open_transaction(
        ctx,
        tape,
        at,
        claim.conn,
        produced.conn,
        versions,
        actor,
        produced.topic,
        560,
    ) {
        Err(halt) => Err(halt),
        Ok((_, at)) => match tape::spec_doing(
            log_flows::spec_fetch_settled(
                ctx,
                tape,
                at,
                produced.conn,
                versions.fetch,
                produced.topic,
                0,
                READ_COMMITTED,
                580,
                0,
                ErrorView::Infra("no fetch attempts were made"@),
            ),
            "Fetch (read_committed)"@,
        ) {
            Err(halt) => Err(halt),
            Ok((row, at)) => server_txn::spec_clean_up(
                txn_flows::spec_end_txn(
                    tape,
                    at,
                    claim.conn,
                    versions.end,
                    actor,
                    false,
                    599,
                ),
                row,
            ),
        },
    }
}

#[verifier::rlimit(30)]
proof fn lemma_held_after(
    setting: Setting,
    ctx: ServerCtx,
    tape: Seq<Event>,
    worlds: Seq<World>,
    at: int,
    versions: TxnVersions,
    produced: ProducedView,
    claim: Claim,
    actor: TxnActorOf<Seq<char>>,
)
    requires
        trial::spares(setting.faults, Deed::Shape),
        trial::spares(setting.faults, Deed::Write),
        trial::spares(setting.faults, Deed::Stamp),
        trial::spares(setting.faults, Deed::Read),
        trial::is_trial(ServerCheck::TxnOpenTransactionHoldsTheStableOffset, setting.faults),
        0 <= at <= tape.len(),
        conformance::is_modern(setting.schema),
        versions == conformance_txn::spoken(setting.schema),
        conformance::is_up(worlds[at].state),
        conformance::is_open(worlds[at], produced.conn),
        conformance::is_open(worlds[at], claim.conn),
        worlds[at].lines[produced.conn as int].node_id == worlds[at].state.placement(produced.topic),
        is_claimed(worlds[at].state, actor),
        has_only_probe(worlds[at].state, produced.topic),
        actor.producer_id == claim.producer_id,
        forall|i: int|
            at <= i < tape.len() ==> conformance::follows(
                setting,
                tape,
                worlds,
                i,
                held_after(ctx, #[trigger] tape.take(i), at, versions, produced, claim, actor),
            ),
    ensures
        trial::judged(setting.faults, held_after(ctx, tape, at, versions, produced, claim, actor)),
{
    conformance::lemma_ranges(setting.schema);
    conformance::lemma_txn_ranges(setting.schema);
    let last = ErrorView::Infra("no fetch attempts were made"@);
    lemma_open_transaction(
        setting,
        ctx,
        tape,
        worlds,
        at,
        claim.conn,
        produced.conn,
        versions,
        actor,
        produced.topic,
        560,
    );
    match txn_flows::spec_open_transaction(
        ctx,
        tape,
        at,
        claim.conn,
        produced.conn,
        versions,
        actor,
        produced.topic,
        560,
    ) {
        Ok((_, wrote)) => {
            lemma_fetch_settled(
                setting,
                ctx,
                tape,
                worlds,
                wrote,
                produced.conn,
                versions.fetch,
                produced.topic,
                580,
                last,
                actor,
            );
            match log_flows::spec_fetch_settled(
                ctx,
                tape,
                wrote,
                produced.conn,
                versions.fetch,
                produced.topic,
                0,
                wire::READ_COMMITTED,
                580,
                0,
                last,
            ) {
                Ok((_, seen)) => {
                    conformance_txn::lemma_end_txn(
                        setting,
                        tape,
                        worlds,
                        seen,
                        claim.conn,
                        versions.end,
                        actor,
                        false,
                        599,
                    );
                },
                Err(_) => {},
            }
        },
        Err(_) => {},
    }
}

#[verifier::rlimit(40)]
pub proof fn lemma_txn_abort_is_reported_to_readers(
    setting: Setting,
    ctx: ServerCtx,
    tape: Seq<Event>,
    worlds: Seq<World>,
)
    requires
        trial::is_trial(ServerCheck::TxnAbortIsReportedToReaders, setting.faults),
        conformance::is_set(setting, ctx, worlds[0].state),
        conformance_txn::has_ids(worlds[0].state),
        forall|i: int|
            0 <= i < tape.len() ==> conformance::follows(
                setting,
                tape,
                worlds,
                i,
                server_txn::spec_txn_abort_is_reported_to_readers(ctx, #[trigger] tape.take(i)),
            ),
    ensures
        trial::judged(setting.faults, server_txn::spec_txn_abort_is_reported_to_readers(ctx, tape)),
{
    assert(trial::spares(setting.faults, Deed::Shape));
    assert(trial::spares(setting.faults, Deed::Stamp));
    assert(trial::spares(setting.faults, Deed::Read));
    assert(trial::spares(setting.faults, Deed::Find));
    assert(trial::spares(setting.faults, Deed::Write));
    assert(trial::spares(setting.faults, Deed::Topic));
    assert(trial::spares(setting.faults, Deed::Cluster));
    conformance::lemma_ranges(setting.schema);
    conformance::lemma_txn_ranges(setting.schema);
    let versions = conformance_txn::spoken(setting.schema);
    assert(txn_flows::spec_txn_versions(ctx, 0) == Ok::<TxnVersions, HaltView>(versions));
    conformance_log::lemma_produce_flow(
        setting,
        ctx,
        tape,
        worlds,
        0,
        "txnabort"@,
        Addressing::Name,
    );
    match flows::spec_produce_flow(ctx, tape, 0, "txnabort"@, Addressing::Name) {
        Ok((produced, at)) => {
            conformance_txn::lemma_fresh_txn_id(setting, ctx, tape, worlds, at, "abort"@);
            match ctx::spec_fresh_txn_id(ctx, tape, at, "abort"@) {
                Ok((id, named)) => {
                    conformance_txn::lemma_init_producer_id(
                        setting,
                        ctx,
                        tape,
                        worlds,
                        named,
                        versions.init,
                        id,
                        600,
                    );
                    match txn_flows::spec_init_producer_id(
                        ctx,
                        tape,
                        named,
                        versions.init,
                        id,
                        600,
                    ) {
                        Ok((claim, claimed)) => {
                            let actor = txn_flows::spec_actor(id, claim);
                            conformance_log::lemma_same_placement(
                                worlds[at].state,
                                worlds[claimed].state,
                                produced.topic,
                            );
                            lemma_aborted_after(
                                setting,
                                ctx,
                                tape,
                                worlds,
                                claimed,
                                versions,
                                produced,
                                claim,
                                actor,
                            );
                        },
                        Err(_) => {},
                    }
                },
                Err(_) => {},
            }
        },
        Err(_) => {},
    }
}

#[verifier::rlimit(40)]
pub proof fn lemma_txn_commit_is_visible_to_readers(
    setting: Setting,
    ctx: ServerCtx,
    tape: Seq<Event>,
    worlds: Seq<World>,
)
    requires
        trial::is_trial(ServerCheck::TxnCommitIsVisibleToReaders, setting.faults),
        conformance::is_set(setting, ctx, worlds[0].state),
        conformance_txn::has_ids(worlds[0].state),
        forall|i: int|
            0 <= i < tape.len() ==> conformance::follows(
                setting,
                tape,
                worlds,
                i,
                server_txn::spec_txn_commit_is_visible_to_readers(ctx, #[trigger] tape.take(i)),
            ),
    ensures
        trial::judged(setting.faults, server_txn::spec_txn_commit_is_visible_to_readers(ctx, tape)),
{
    assert(trial::spares(setting.faults, Deed::Shape));
    assert(trial::spares(setting.faults, Deed::Stamp));
    assert(trial::spares(setting.faults, Deed::Read));
    assert(trial::spares(setting.faults, Deed::Find));
    assert(trial::spares(setting.faults, Deed::Write));
    assert(trial::spares(setting.faults, Deed::Topic));
    assert(trial::spares(setting.faults, Deed::Cluster));
    conformance::lemma_ranges(setting.schema);
    conformance::lemma_txn_ranges(setting.schema);
    let versions = conformance_txn::spoken(setting.schema);
    assert(txn_flows::spec_txn_versions(ctx, 0) == Ok::<TxnVersions, HaltView>(versions));
    conformance_log::lemma_produce_flow(
        setting,
        ctx,
        tape,
        worlds,
        0,
        "txncommit"@,
        Addressing::Name,
    );
    match flows::spec_produce_flow(ctx, tape, 0, "txncommit"@, Addressing::Name) {
        Ok((produced, at)) => {
            conformance_txn::lemma_fresh_txn_id(setting, ctx, tape, worlds, at, "commit"@);
            match ctx::spec_fresh_txn_id(ctx, tape, at, "commit"@) {
                Ok((id, named)) => {
                    conformance_txn::lemma_init_producer_id(
                        setting,
                        ctx,
                        tape,
                        worlds,
                        named,
                        versions.init,
                        id,
                        980,
                    );
                    match txn_flows::spec_init_producer_id(
                        ctx,
                        tape,
                        named,
                        versions.init,
                        id,
                        980,
                    ) {
                        Ok((claim, claimed)) => {
                            let actor = txn_flows::spec_actor(id, claim);
                            conformance_log::lemma_same_placement(
                                worlds[at].state,
                                worlds[claimed].state,
                                produced.topic,
                            );
                            lemma_committed_after(
                                setting,
                                ctx,
                                tape,
                                worlds,
                                claimed,
                                versions,
                                produced,
                                claim,
                                actor,
                            );
                        },
                        Err(_) => {},
                    }
                },
                Err(_) => {},
            }
        },
        Err(_) => {},
    }
}

#[verifier::rlimit(40)]
pub proof fn lemma_txn_open_transaction_holds_the_stable_offset(
    setting: Setting,
    ctx: ServerCtx,
    tape: Seq<Event>,
    worlds: Seq<World>,
)
    requires
        trial::is_trial(ServerCheck::TxnOpenTransactionHoldsTheStableOffset, setting.faults),
        conformance::is_set(setting, ctx, worlds[0].state),
        conformance_txn::has_ids(worlds[0].state),
        forall|i: int|
            0 <= i < tape.len() ==> conformance::follows(
                setting,
                tape,
                worlds,
                i,
                server_txn::spec_txn_open_transaction_holds_the_stable_offset(
                    ctx,
                    #[trigger] tape.take(i),
                ),
            ),
    ensures
        trial::judged(setting.faults, 
            server_txn::spec_txn_open_transaction_holds_the_stable_offset(ctx, tape),
        ),
{
    assert(trial::spares(setting.faults, Deed::Shape));
    assert(trial::spares(setting.faults, Deed::Stamp));
    assert(trial::spares(setting.faults, Deed::Read));
    assert(trial::spares(setting.faults, Deed::Find));
    assert(trial::spares(setting.faults, Deed::Write));
    assert(trial::spares(setting.faults, Deed::Topic));
    assert(trial::spares(setting.faults, Deed::Cluster));
    conformance::lemma_ranges(setting.schema);
    conformance::lemma_txn_ranges(setting.schema);
    let versions = conformance_txn::spoken(setting.schema);
    assert(txn_flows::spec_txn_versions(ctx, 0) == Ok::<TxnVersions, HaltView>(versions));
    conformance_log::lemma_produce_flow(setting, ctx, tape, worlds, 0, "txnlso"@, Addressing::Name);
    match flows::spec_produce_flow(ctx, tape, 0, "txnlso"@, Addressing::Name) {
        Ok((produced, at)) => {
            conformance_txn::lemma_fresh_txn_id(setting, ctx, tape, worlds, at, "lso"@);
            match ctx::spec_fresh_txn_id(ctx, tape, at, "lso"@) {
                Ok((id, named)) => {
                    conformance_txn::lemma_init_producer_id(
                        setting,
                        ctx,
                        tape,
                        worlds,
                        named,
                        versions.init,
                        id,
                        540,
                    );
                    match txn_flows::spec_init_producer_id(
                        ctx,
                        tape,
                        named,
                        versions.init,
                        id,
                        540,
                    ) {
                        Ok((claim, claimed)) => {
                            let actor = txn_flows::spec_actor(id, claim);
                            conformance_log::lemma_same_placement(
                                worlds[at].state,
                                worlds[claimed].state,
                                produced.topic,
                            );
                            lemma_held_after(
                                setting,
                                ctx,
                                tape,
                                worlds,
                                claimed,
                                versions,
                                produced,
                                claim,
                                actor,
                            );
                        },
                        Err(_) => {},
                    }
                },
                Err(_) => {},
            }
        },
        Err(_) => {},
    }
}

#[verifier::rlimit(40)]
pub proof fn lemma_txn_unannounced_write_stays_in_the_transaction(
    setting: Setting,
    ctx: ServerCtx,
    tape: Seq<Event>,
    worlds: Seq<World>,
)
    requires
        trial::is_trial(ServerCheck::TxnUnannouncedWriteStaysInTheTransaction, setting.faults),
        conformance::is_set(setting, ctx, worlds[0].state),
        conformance_txn::has_ids(worlds[0].state),
        forall|i: int|
            0 <= i < tape.len() ==> conformance::follows(
                setting,
                tape,
                worlds,
                i,
                server_txn::spec_txn_unannounced_write_stays_in_the_transaction(
                    ctx,
                    #[trigger] tape.take(i),
                ),
            ),
    ensures
        trial::judged(setting.faults, 
            server_txn::spec_txn_unannounced_write_stays_in_the_transaction(ctx, tape),
        ),
{
    assert(trial::spares(setting.faults, Deed::Shape));
    assert(trial::spares(setting.faults, Deed::Stamp));
    assert(trial::spares(setting.faults, Deed::Read));
    assert(trial::spares(setting.faults, Deed::Find));
    assert(trial::spares(setting.faults, Deed::Write));
    assert(trial::spares(setting.faults, Deed::Topic));
    assert(trial::spares(setting.faults, Deed::Cluster));
    conformance::lemma_ranges(setting.schema);
    conformance::lemma_txn_ranges(setting.schema);
    let versions = conformance_txn::spoken(setting.schema);
    assert(txn_flows::spec_txn_versions(ctx, 0) == Ok::<TxnVersions, HaltView>(versions));
    conformance_log::lemma_produce_flow(
        setting,
        ctx,
        tape,
        worlds,
        0,
        "txnunannounced"@,
        Addressing::Name,
    );
    match flows::spec_produce_flow(ctx, tape, 0, "txnunannounced"@, Addressing::Name) {
        Ok((produced, at)) => {
            conformance_txn::lemma_fresh_txn_id(setting, ctx, tape, worlds, at, "unannounced"@);
            match ctx::spec_fresh_txn_id(ctx, tape, at, "unannounced"@) {
                Ok((id, named)) => {
                    conformance_txn::lemma_init_producer_id(
                        setting,
                        ctx,
                        tape,
                        worlds,
                        named,
                        versions.init,
                        id,
                        500,
                    );
                    match txn_flows::spec_init_producer_id(
                        ctx,
                        tape,
                        named,
                        versions.init,
                        id,
                        500,
                    ) {
                        Ok((claim, claimed)) => {
                            let actor = txn_flows::spec_actor(id, claim);
                            conformance_log::lemma_same_placement(
                                worlds[at].state,
                                worlds[claimed].state,
                                produced.topic,
                            );
                            lemma_unannounced_after(
                                setting,
                                ctx,
                                tape,
                                worlds,
                                claimed,
                                versions,
                                produced,
                                claim,
                                actor,
                            );
                        },
                        Err(_) => {},
                    }
                },
                Err(_) => {},
            }
        },
        Err(_) => {},
    }
}

} // verus!

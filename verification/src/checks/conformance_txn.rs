//! Runs of the checks on producers and on transactions.

use vstd::prelude::*;
use vstd::string::*;

use crate::checks::asks;
use crate::checks::batch;
use crate::checks::batch::ProduceStampOf;
use crate::checks::calibration_txn;
use crate::checks::conformance;
use crate::checks::conformance::{Setting, World};
use crate::checks::conformance_groups;
use crate::checks::conformance_log;
use crate::checks::conformance_reads;
use crate::checks::ctx;
use crate::checks::ctx::ServerCtx;
use crate::checks::flows;
use crate::checks::flows::Addressing;
use crate::checks::group_flows;
use crate::checks::log_flows;
use crate::checks::server::ServerCheck;
use crate::checks::server_txn;
use crate::checks::tape;
use crate::checks::tape::{ActionOf, BatchStamp, Event, FlowView, HaltView, Label};
use crate::checks::trial;
use crate::checks::trial::Deed;
use crate::checks::txn_flows;
use crate::checks::txn_flows::{Claim, TxnVersions};
use crate::subject::Fault;
use crate::subject::log;
use crate::subject::requests::{EndTxnAskView, InitProducerIdAskView, TxnTopicView};
use crate::subject::state;
use crate::subject::state::{ClusterView, LastBatch, LogView, TxnView};
use crate::subject::txn;
use crate::wire;
use crate::wire::{
    ErrorCode, InitProducerIdAnswer, ProducedRow, RequestOf, Response, Schema, TopicOf, TxnActorOf,
};
use crate::VerdictView;

verus! {

/// A transactional id that nothing has yet.
pub proof fn lemma_fresh_txn_id(
    setting: Setting,
    ctx: ServerCtx,
    tape: Seq<Event>,
    worlds: Seq<World>,
    at: int,
    tag: Seq<char>,
)
    requires
        0 <= at <= tape.len(),
        forall|i: int|
            at <= i < tape.len() ==> conformance::follows(
                setting,
                tape,
                worlds,
                i,
                ctx::spec_fresh_txn_id(ctx, #[trigger] tape.take(i), at, tag),
            ),
    ensures
        match ctx::spec_fresh_txn_id(ctx, tape, at, tag) {
            Ok((id, to)) => {
                &&& at <= to <= tape.len()
                &&& to == at + 1
                &&& worlds[to] == worlds[at]
                &&& !worlds[at].state.txns.contains_key(id)
                &&& forall|i: int|
                    to <= i <= tape.len() ==> ctx::spec_fresh_txn_id(
                        ctx,
                        #[trigger] tape.take(i),
                        at,
                        tag,
                    )
                        == Ok::<(Seq<char>, int), HaltView>((id, to))
            },
            Err(HaltView::Ask(_)) => true,
            _ => false,
        },
{
    reveal(conformance::performs);
    if at < tape.len() {
        assert(tape.take(at).len() == at);
    }
}

/// An InitProducerId request on an open connection.
pub proof fn lemma_init(
    setting: Setting,
    tape: Seq<Event>,
    worlds: Seq<World>,
    at: int,
    label: Label<Seq<char>>,
    conn: usize,
    version: i16,
    correlation: i32,
    transactional_id: Option<Seq<char>>,
    timeout_ms: i32,
)
    requires
        0 <= at <= tape.len(),
        conformance::is_modern(setting.schema),
        conformance::is_up(worlds[at].state),
        conformance::is_open(worlds[at], conn),
        setting.schema.init_producer_id.min <= version <= setting.schema.init_producer_id.max,
        forall|i: int|
            at <= i < tape.len() ==> conformance::follows(
                setting,
                tape,
                worlds,
                i,
                asks::spec_ask_init_producer_id(
                    #[trigger] tape.take(i),
                    at,
                    label,
                    ActionOf::Call {
                        conn,
                        version,
                        correlation,
                        request: RequestOf::InitProducerId { transactional_id, timeout_ms },
                    },
                ),
            ),
    ensures
        match asks::spec_ask_init_producer_id(
            tape,
            at,
            label,
            ActionOf::Call {
                conn,
                version,
                correlation,
                request: RequestOf::InitProducerId { transactional_id, timeout_ms },
            },
        ) {
            Ok((answer, to)) => {
                &&& at <= to <= tape.len()
                &&& to == at + 1
                &&& worlds[to].lines == worlds[at].lines
                &&& conformance::is_up(worlds[to].state)
                &&& ({
                    let (after, reply) = txn::spec_init_producer_id(
                        worlds[at].state,
                        InitProducerIdAskView { transactional_id },
                        setting.faults,
                    );
                    &&& worlds[to].state == after
                    &&& answer.error.ok()
                    &&& answer.producer_id == reply.producer_id
                    &&& answer.producer_epoch == reply.producer_epoch
                })
                &&& forall|i: int|
                    to <= i <= tape.len() ==> asks::spec_ask_init_producer_id(
                        #[trigger] tape.take(i),
                        at,
                        label,
                        ActionOf::Call {
                            conn,
                            version,
                            correlation,
                            request: RequestOf::InitProducerId { transactional_id, timeout_ms },
                        },
                    )
                        == Ok::<(InitProducerIdAnswer, int), HaltView>((answer, to))
            },
            Err(HaltView::Ask(_)) => true,
            _ => false,
        },
{
    conformance::lemma_txn_ranges(setting.schema);
    if at < tape.len() {
        assert(tape.take(at).len() == at);
    }
    let request = RequestOf::InitProducerId { transactional_id, timeout_ms };
    conformance::lemma_call(setting, tape, worlds, at, label, conn, version, correlation, request);
}

/// The first claim is the only one where it is granted.
proof fn lemma_claimed_at_once(
    ctx: ServerCtx,
    tape: Seq<Event>,
    at: int,
    bootstrap: usize,
    conn: usize,
    version: i16,
    id: Seq<char>,
    base: i32,
    last: Seq<char>,
)
    requires
        asks::spec_ask_init_producer_id(
            tape,
            at,
            Label::Named("InitProducerId"@),
            ActionOf::Call {
                conn,
                version,
                correlation: ctx::spec_correlation(base, 0),
                request: RequestOf::InitProducerId {
                    transactional_id: Some(id),
                    timeout_ms: 60_000,
                },
            },
        ) matches Ok((answer, _)) ==> answer.error.ok(),
    ensures
        txn_flows::spec_claim(
            ctx,
            tape,
            at,
            bootstrap,
            conn,
            version,
            id,
            base,
            0,
            last,
        ) == match asks::spec_ask_init_producer_id(
            tape,
            at,
            Label::Named("InitProducerId"@),
            ActionOf::Call {
                conn,
                version,
                correlation: ctx::spec_correlation(base, 0),
                request: RequestOf::InitProducerId {
                    transactional_id: Some(id),
                    timeout_ms: 60_000,
                },
            },
        ) {
            Ok((answer, at)) => Ok::<(Claim, int), HaltView>(
                (
                    Claim {
                        conn,
                        producer_id: answer.producer_id,
                        producer_epoch: answer.producer_epoch,
                    },
                    at,
                ),
            ),
            Err(halt) => Err(halt),
        },
{
}

/// Claiming a transactional id.
proof fn lemma_claim(
    setting: Setting,
    ctx: ServerCtx,
    tape: Seq<Event>,
    worlds: Seq<World>,
    at: int,
    bootstrap: usize,
    conn: usize,
    version: i16,
    id: Seq<char>,
    base: i32,
    last: Seq<char>,
)
    requires
        0 <= at <= tape.len(),
        conformance::is_modern(setting.schema),
        conformance::is_up(worlds[at].state),
        conformance::is_open(worlds[at], conn),
        setting.schema.init_producer_id.min <= version <= setting.schema.init_producer_id.max,
        forall|i: int|
            at <= i < tape.len() ==> conformance::follows(
                setting,
                tape,
                worlds,
                i,
                txn_flows::spec_claim(
                    ctx,
                    #[trigger] tape.take(i),
                    at,
                    bootstrap,
                    conn,
                    version,
                    id,
                    base,
                    0,
                    last,
                ),
            ),
    ensures
        match txn_flows::spec_claim(ctx, tape, at, bootstrap, conn, version, id, base, 0, last) {
            Ok((claim, to)) => {
                &&& at <= to <= tape.len()
                &&& worlds[to].lines == worlds[at].lines
                &&& claim.conn == conn
                &&& ({
                    let (after, reply) = txn::spec_init_producer_id(
                        worlds[at].state,
                        InitProducerIdAskView { transactional_id: Some(id) },
                        setting.faults,
                    );
                    &&& worlds[to].state == after
                    &&& claim.producer_id == reply.producer_id
                    &&& claim.producer_epoch == reply.producer_epoch
                })
                &&& forall|i: int|
                    to <= i <= tape.len() ==> txn_flows::spec_claim(
                        ctx,
                        #[trigger] tape.take(i),
                        at,
                        bootstrap,
                        conn,
                        version,
                        id,
                        base,
                        0,
                        last,
                    )
                        == Ok::<(Claim, int), HaltView>((claim, to))
            },
            Err(HaltView::Ask(_)) => true,
            _ => false,
        },
{
    let correlation = ctx::spec_correlation(base, 0);
    let label = Label::Named("InitProducerId"@);
    assert forall|i: int| at <= i < tape.len() implies conformance::follows(
        setting,
        tape,
        worlds,
        i,
        asks::spec_ask_init_producer_id(
            #[trigger] tape.take(i),
            at,
            Label::Named("InitProducerId"@),
            ActionOf::Call {
                conn,
                version,
                correlation: ctx::spec_correlation(base, 0),
                request: RequestOf::InitProducerId {
                    transactional_id: Some(id),
                    timeout_ms: 60_000,
                },
            },
        ),
    ) by {
        assert(
            asks::spec_ask_init_producer_id(
                tape.take(i),
                at,
                Label::Named("InitProducerId"@),
                ActionOf::Call {
                    conn,
                    version,
                    correlation: ctx::spec_correlation(base, 0),
                    request: RequestOf::InitProducerId {
                        transactional_id: Some(id),
                        timeout_ms: 60_000,
                    },
                },
            ) matches Err(halt) ==> txn_flows::spec_claim(ctx, tape.take(i), at, bootstrap, conn, version, id, base, 0, last) == Err::<(Claim, int), HaltView>(halt)
        );
    }
    lemma_init(setting, tape, worlds, at, label, conn, version, correlation, Some(id), 60_000);
    lemma_claimed_at_once(ctx, tape, at, bootstrap, conn, version, id, base, last);
    assert forall|i: int| at < i <= tape.len() && asks::spec_ask_init_producer_id(
        tape,
        at,
        Label::Named("InitProducerId"@),
        ActionOf::Call {
            conn,
            version,
            correlation: ctx::spec_correlation(base, 0),
            request: RequestOf::InitProducerId { transactional_id: Some(id), timeout_ms: 60_000 },
        },
    ) is Ok implies txn_flows::spec_claim(ctx, #[trigger] tape.take(i), at, bootstrap, conn, version, id, base, 0, last)
        == txn_flows::spec_claim(ctx, tape, at, bootstrap, conn, version, id, base, 0, last) by {
        lemma_claimed_at_once(ctx, tape.take(i), at, bootstrap, conn, version, id, base, last);
    }
}

/// Claiming a transactional id, of the broker that coordinates it.
#[verifier::rlimit(40)]
pub proof fn lemma_init_producer_id(
    setting: Setting,
    ctx: ServerCtx,
    tape: Seq<Event>,
    worlds: Seq<World>,
    at: int,
    version: i16,
    id: Seq<char>,
    base: i32,
)
    requires
        trial::spares(setting.faults, Deed::Find),
        0 <= at <= tape.len(),
        conformance::is_set(setting, ctx, worlds[at].state),
        setting.schema.init_producer_id.min <= version <= setting.schema.init_producer_id.max,
        forall|i: int|
            at <= i < tape.len() ==> conformance::follows(
                setting,
                tape,
                worlds,
                i,
                txn_flows::spec_init_producer_id(
                    ctx,
                    #[trigger] tape.take(i),
                    at,
                    version,
                    id,
                    base,
                ),
            ),
    ensures
        match txn_flows::spec_init_producer_id(ctx, tape, at, version, id, base) {
            Ok((claim, to)) => {
                &&& at <= to <= tape.len()
                &&& conformance::extends(worlds[at], worlds[to])
                &&& conformance::is_open(worlds[to], claim.conn)
                &&& conformance::is_set(setting, ctx, worlds[to].state)
                &&& ({
                    let (after, reply) = txn::spec_init_producer_id(
                        worlds[at].state,
                        InitProducerIdAskView { transactional_id: Some(id) },
                        setting.faults,
                    );
                    &&& worlds[to].state == after
                    &&& claim.producer_id == reply.producer_id
                    &&& claim.producer_epoch == reply.producer_epoch
                })
                &&& forall|i: int|
                    to <= i <= tape.len() ==> txn_flows::spec_init_producer_id(
                        ctx,
                        #[trigger] tape.take(i),
                        at,
                        version,
                        id,
                        base,
                    )
                        == Ok::<(Claim, int), HaltView>((claim, to))
            },
            Err(HaltView::Ask(_)) => true,
            _ => false,
        },
{
    conformance_log::lemma_some_live(worlds[at].state);
    conformance::lemma_group_ranges(setting.schema);
    let asked = setting.schema.find_coordinator.max;
    let before = base.wrapping_sub(1);
    if at < tape.len() {
        assert(tape.take(at).len() == at);
    }
    conformance::lemma_connect(setting, tape, worlds, at, ctx.addr@);
    match tape::spec_connect(tape, at, ctx.addr@) {
        Ok((bootstrap, connected)) => {
            conformance_groups::lemma_ask_coordinator(
                setting,
                ctx,
                tape,
                worlds,
                connected,
                bootstrap,
                asked,
                1,
                id,
                before,
            );
            match group_flows::spec_ask_coordinator(
                ctx,
                tape,
                connected,
                bootstrap,
                asked,
                1,
                id,
                before,
                0,
            ) {
                Ok((found, told)) => {
                    let state = worlds[at].state;
                    let k = choose|k: int|
                        conformance_log::leads(state, id, k) && found == Some(
                            conformance::address_of(state.ports[k]),
                        );
                    let addr = conformance::address_of(state.ports[k]);
                    assert(conformance::listens(state, k, addr));
                    assert(conformance::is_heard(state, addr));
                    if told < tape.len() {
                        assert(tape.take(told).len() == told);
                    }
                    conformance::lemma_connect(setting, tape, worlds, told, addr);
                    match tape::spec_connect(tape, told, addr) {
                        Ok((conn, reached)) => {
                            lemma_claim(
                                setting,
                                ctx,
                                tape,
                                worlds,
                                reached,
                                bootstrap,
                                conn,
                                version,
                                id,
                                base,
                                ""@,
                            );
                            match txn_flows::spec_claim(
                                ctx,
                                tape,
                                reached,
                                bootstrap,
                                conn,
                                version,
                                id,
                                base,
                                0,
                                ""@,
                            ) {
                                Ok((_, to)) => {
                                    conformance_log::lemma_still_set(
                                        setting,
                                        ctx,
                                        worlds[at].state,
                                        worlds[to].state,
                                    );
                                },
                                Err(_) => {},
                            }
                        },
                        Err(_) => {},
                    }
                },
                Err(_) => {},
            }
        },
        Err(_) => {},
    }
}

/// The lesser of two versions.
pub open spec fn lesser(a: i16, b: i16) -> i16 {
    if a <= b {
        a
    } else {
        b
    }
}

/// The versions that a transactional check speaks.
pub open spec fn spoken(schema: Schema) -> TxnVersions {
    TxnVersions {
        init: lesser(schema.init_producer_id.max, txn_flows::TXN_INIT_MAX),
        add: lesser(schema.add_partitions_to_txn.max, txn_flows::ADD_PARTITIONS_CLIENT_MAX),
        end: lesser(schema.end_txn.max, txn_flows::END_TXN_MAX),
        produce: lesser(schema.produce.max, flows::PRODUCE_NAME_MAX),
        fetch: lesser(schema.fetch.max, flows::FETCH_NAME_MAX),
    }
}

#[verifier::rlimit(30)]
pub proof fn lemma_txn_init_bumps_the_epoch(
    setting: Setting,
    ctx: ServerCtx,
    tape: Seq<Event>,
    worlds: Seq<World>,
)
    requires
        trial::is_trial(ServerCheck::TxnInitBumpsTheEpoch, setting.faults),
        conformance::is_set(setting, ctx, worlds[0].state),
        forall|i: int|
            0 <= i < tape.len() ==> conformance::follows(
                setting,
                tape,
                worlds,
                i,
                server_txn::spec_txn_init_bumps_the_epoch(ctx, #[trigger] tape.take(i)),
            ),
    ensures
        trial::judged(setting.faults, server_txn::spec_txn_init_bumps_the_epoch(ctx, tape)),
{
    assert(trial::spares(setting.faults, Deed::Find));
    conformance::lemma_ranges(setting.schema);
    conformance::lemma_txn_ranges(setting.schema);
    let versions = spoken(setting.schema);
    assert(txn_flows::spec_txn_versions(ctx, 0) == Ok::<TxnVersions, HaltView>(versions));
    lemma_fresh_txn_id(setting, ctx, tape, worlds, 0, "epoch"@);
    match ctx::spec_fresh_txn_id(ctx, tape, 0, "epoch"@) {
        Ok((id, at)) => {
            lemma_init_producer_id(setting, ctx, tape, worlds, at, versions.init, id, 400);
            match txn_flows::spec_init_producer_id(ctx, tape, at, versions.init, id, 400) {
                Ok((first, claimed)) => {
                    lemma_init_producer_id(
                        setting,
                        ctx,
                        tape,
                        worlds,
                        claimed,
                        versions.init,
                        id,
                        420,
                    );
                },
                Err(_) => {},
            }
        },
        Err(_) => {},
    }
}

/// An AddPartitionsToTxn request on an open connection.
pub proof fn lemma_add_partitions(
    setting: Setting,
    tape: Seq<Event>,
    worlds: Seq<World>,
    at: int,
    conn: usize,
    version: i16,
    actor: TxnActorOf<Seq<char>>,
    topic: Seq<char>,
    correlation: i32,
)
    requires
        0 <= at <= tape.len(),
        conformance::is_modern(setting.schema),
        conformance::is_up(worlds[at].state),
        conformance::is_open(worlds[at], conn),
        setting.schema.add_partitions_to_txn.min <= version <= setting.schema.add_partitions_to_txn.max,
        forall|i: int|
            at <= i < tape.len() ==> conformance::follows(
                setting,
                tape,
                worlds,
                i,
                txn_flows::spec_add_partitions(
                    #[trigger] tape.take(i),
                    at,
                    conn,
                    version,
                    actor,
                    topic,
                    correlation,
                ),
            ),
    ensures
        match txn_flows::spec_add_partitions(tape, at, conn, version, actor, topic, correlation) {
            Ok((code, to)) => {
                &&& at <= to <= tape.len()
                &&& to == at + 1
                &&& worlds[to].lines == worlds[at].lines
                &&& conformance::is_up(worlds[to].state)
                &&& ({
                    let state = worlds[at].state;
                    let id = actor.transactional_id;
                    let refused = txn::spec_epoch_check(
                        state,
                        id,
                        actor.producer_epoch,
                        setting.faults,
                    );
                    &&& code matches Some(said) && said.code == refused
                    &&& worlds[to].state == if refused == wire::NONE {
                        ClusterView {
                            txns: state.txns.insert(
                                id,
                                TxnView {
                                    partitions: state.txns[id].partitions.insert((topic, 0i32)),
                                    ..state.txns[id]
                                },
                            ),
                            ..state
                        }
                    } else {
                        state
                    }
                })
                &&& forall|i: int|
                    to <= i <= tape.len() ==> txn_flows::spec_add_partitions(
                        #[trigger] tape.take(i),
                        at,
                        conn,
                        version,
                        actor,
                        topic,
                        correlation,
                    )
                        == Ok::<(Option<ErrorCode>, int), HaltView>((code, to))
            },
            Err(HaltView::Ask(_)) => true,
            _ => false,
        },
{
    conformance::lemma_txn_ranges(setting.schema);
    if at < tape.len() {
        assert(tape.take(at).len() == at);
    }
    let request = RequestOf::AddPartitionsToTxn { actor, topic, partition: 0 };
    conformance::lemma_call(
        setting,
        tape,
        worlds,
        at,
        Label::Named("AddPartitionsToTxn"@),
        conn,
        version,
        correlation,
        request,
    );
    let one = seq![0i32];
    assert(one.drop_last() =~= Seq::empty());
    reveal_with_fuel(txn::announce_partitions, 2);
    let all = seq![TxnTopicView { name: topic, partitions: one }];
    assert(all.drop_last() =~= Seq::empty());
    reveal_with_fuel(txn::announce_topics, 2);
    match tape::spec_call(
        tape,
        at,
        Label::Named("AddPartitionsToTxn"@),
        ActionOf::Call { conn, version, correlation, request },
    ) {
        Ok((Response::Codes(codes), _)) => {
            assert(codes@[0]@.len() == 1);
            assert(codes@[0]@[0].code == codes@[0]@[0].code);
        },
        _ => {},
    }
}

#[verifier::rlimit(60)]
pub proof fn lemma_txn_stale_epoch_is_fenced(
    setting: Setting,
    ctx: ServerCtx,
    tape: Seq<Event>,
    worlds: Seq<World>,
)
    requires
        trial::is_trial(ServerCheck::TxnStaleEpochIsFenced, setting.faults),
        conformance::is_set(setting, ctx, worlds[0].state),
        forall|i: int|
            0 <= i < tape.len() ==> conformance::follows(
                setting,
                tape,
                worlds,
                i,
                server_txn::spec_txn_stale_epoch_is_fenced(ctx, #[trigger] tape.take(i)),
            ),
    ensures
        trial::judged(setting.faults, server_txn::spec_txn_stale_epoch_is_fenced(ctx, tape)),
{
    assert(trial::spares(setting.faults, Deed::Find));
    assert(trial::spares(setting.faults, Deed::Write));
    assert(trial::spares(setting.faults, Deed::Topic));
    assert(trial::spares(setting.faults, Deed::Cluster));
    conformance::lemma_ranges(setting.schema);
    conformance::lemma_txn_ranges(setting.schema);
    let versions = spoken(setting.schema);
    assert(txn_flows::spec_txn_versions(ctx, 0) == Ok::<TxnVersions, HaltView>(versions));
    conformance_log::lemma_produce_flow(
        setting,
        ctx,
        tape,
        worlds,
        0,
        "txnfence"@,
        Addressing::Name,
    );
    match flows::spec_produce_flow(ctx, tape, 0, "txnfence"@, Addressing::Name) {
        Ok((produced, at)) => {
            lemma_fresh_txn_id(setting, ctx, tape, worlds, at, "fence"@);
            match ctx::spec_fresh_txn_id(ctx, tape, at, "fence"@) {
                Ok((id, named)) => {
                    lemma_init_producer_id(
                        setting,
                        ctx,
                        tape,
                        worlds,
                        named,
                        versions.init,
                        id,
                        440,
                    );
                    match txn_flows::spec_init_producer_id(
                        ctx,
                        tape,
                        named,
                        versions.init,
                        id,
                        440,
                    ) {
                        Ok((first, claimed)) => {
                            lemma_init_producer_id(
                                setting,
                                ctx,
                                tape,
                                worlds,
                                claimed,
                                versions.init,
                                id,
                                460,
                            );
                            match txn_flows::spec_init_producer_id(
                                ctx,
                                tape,
                                claimed,
                                versions.init,
                                id,
                                460,
                            ) {
                                Ok((second, again)) => {
                                    let actor = txn_flows::spec_at_epoch(
                                        txn_flows::spec_actor(id, second),
                                        first.producer_epoch,
                                    );
                                    lemma_add_partitions(
                                        setting,
                                        tape,
                                        worlds,
                                        again,
                                        second.conn,
                                        versions.add,
                                        actor,
                                        produced.topic,
                                        480,
                                    );
                                },
                                Err(_) => {},
                            }
                        },
                        Err(_) => {},
                    }
                },
                Err(_) => {},
            }
        },
        Err(_) => {},
    }
}

/// An EndTxn request on an open connection.
pub proof fn lemma_end_txn(
    setting: Setting,
    tape: Seq<Event>,
    worlds: Seq<World>,
    at: int,
    conn: usize,
    version: i16,
    actor: TxnActorOf<Seq<char>>,
    committed: bool,
    correlation: i32,
)
    requires
        0 <= at <= tape.len(),
        conformance::is_modern(setting.schema),
        conformance::is_up(worlds[at].state),
        conformance::is_open(worlds[at], conn),
        setting.schema.end_txn.min <= version <= setting.schema.end_txn.max,
        forall|i: int|
            at <= i < tape.len() ==> conformance::follows(
                setting,
                tape,
                worlds,
                i,
                txn_flows::spec_end_txn(
                    #[trigger] tape.take(i),
                    at,
                    conn,
                    version,
                    actor,
                    committed,
                    correlation,
                ),
            ),
    ensures
        match txn_flows::spec_end_txn(tape, at, conn, version, actor, committed, correlation) {
            Ok((code, to)) => {
                &&& at <= to <= tape.len()
                &&& to == at + 1
                &&& worlds[to].lines == worlds[at].lines
                &&& conformance::is_up(worlds[to].state)
                &&& ({
                    let (after, refused) = txn::spec_end_txn(
                        worlds[at].state,
                        EndTxnAskView {
                            transactional_id: actor.transactional_id,
                            producer_epoch: actor.producer_epoch,
                            committed,
                        },
                        setting.faults,
                    );
                    &&& worlds[to].state == after
                    &&& code.code == refused
                })
                &&& forall|i: int|
                    to <= i <= tape.len() ==> txn_flows::spec_end_txn(
                        #[trigger] tape.take(i),
                        at,
                        conn,
                        version,
                        actor,
                        committed,
                        correlation,
                    )
                        == Ok::<(ErrorCode, int), HaltView>((code, to))
            },
            Err(HaltView::Ask(_)) => true,
            _ => false,
        },
{
    conformance::lemma_txn_ranges(setting.schema);
    if at < tape.len() {
        assert(tape.take(at).len() == at);
    }
    let request = RequestOf::EndTxn { actor, committed };
    conformance::lemma_call(
        setting,
        tape,
        worlds,
        at,
        Label::Named("EndTxn"@),
        conn,
        version,
        correlation,
        request,
    );
}

/// Whether a record set was written under a stamp, and a row answered for it.
pub open spec fn took(
    setting: Setting,
    before: ClusterView,
    after: ClusterView,
    topic: Seq<char>,
    stamp: ProduceStampOf<Seq<char>>,
    row: ProducedRow,
    records: Seq<u8>,
) -> bool {
    let (log, answer) = conformance_log::written(
        setting,
        before,
        topic,
        0,
        stamp.transactional_id,
        records,
    );
    &&& conformance::encodes_probe(setting, records, stamp.spec_on_batch())
    &&& after == (ClusterView { logs: before.logs.insert((topic, 0i32), log), ..before })
    &&& calibration_txn::shows_written(row, answer)
}

/// Writing the probe batch under a stamp.
pub proof fn lemma_produce_stamped(
    setting: Setting,
    tape: Seq<Event>,
    worlds: Seq<World>,
    at: int,
    conn: usize,
    version: i16,
    stamp: ProduceStampOf<Seq<char>>,
    topic: Seq<char>,
    correlation: i32,
)
    requires
        trial::spares(setting.faults, Deed::Shape),
        trial::spares(setting.faults, Deed::Write),
        0 <= at <= tape.len(),
        conformance::is_modern(setting.schema),
        conformance::is_served(worlds[at], conn),
        setting.schema.produce.min <= version <= setting.schema.produce.max,
        worlds[at].lines[conn as int].node_id == worlds[at].state.placement(topic)
            || setting.faults.contains(Fault::AnyBrokerAcceptsWrites),
        topic.len() > 0,
        forall|i: int|
            at <= i < tape.len() ==> conformance::follows(
                setting,
                tape,
                worlds,
                i,
                txn_flows::spec_produce_stamped(
                    #[trigger] tape.take(i),
                    at,
                    conn,
                    version,
                    stamp,
                    topic,
                    correlation,
                ),
            ),
    ensures
        match txn_flows::spec_produce_stamped(tape, at, conn, version, stamp, topic, correlation) {
            Ok((row, to)) => {
                &&& at <= to <= tape.len()
                &&& conformance::extends(worlds[at], worlds[to])
                &&& exists|records: Seq<u8>| #[trigger] took(
                    setting,
                    worlds[at].state,
                    worlds[to].state,
                    topic,
                    stamp,
                    row,
                    records,
                )
                &&& forall|i: int|
                    to <= i <= tape.len() ==> txn_flows::spec_produce_stamped(
                        #[trigger] tape.take(i),
                        at,
                        conn,
                        version,
                        stamp,
                        topic,
                        correlation,
                    )
                        == Ok::<(ProducedRow, int), HaltView>((row, to))
            },
            Err(HaltView::Ask(_)) => true,
            _ => false,
        },
{
    let label = Label::Named("transactional batch"@);
    conformance_log::lemma_encode(setting, tape, worlds, at, label, stamp.spec_on_batch());
    match tape::spec_encode(tape, at, label, ActionOf::Encode { stamp: stamp.spec_on_batch() }) {
        Ok((records, encoded)) => {
            conformance_log::lemma_produce(
                setting,
                tape,
                worlds,
                encoded,
                Label::Named("Produce"@),
                conn,
                version,
                correlation,
                TopicOf::Name(topic),
                0,
                flows::ALL_REPLICAS,
                stamp.transactional_id,
                records@,
                topic,
            );
            match txn_flows::spec_produce_stamped(
                tape,
                at,
                conn,
                version,
                stamp,
                topic,
                correlation,
            ) {
                Ok((row, to)) => {
                    assert(
                        took(
                            setting,
                            worlds[at].state,
                            worlds[to].state,
                            topic,
                            stamp,
                            row,
                            records@,
                        )
                    );
                },
                Err(_) => {},
            }
        },
        Err(_) => {},
    }
}

/// Whether a log holds the first batch that a producer put behind the probe
/// batch, with or without a transaction round it.
pub open spec fn is_second(log: LogView, producer_id: i64, transactional: bool) -> bool {
    &&& log.next_offset == 4
    &&& log.open == if transactional {
        Map::<i64, i64>::empty().insert(producer_id, 2)
    } else {
        Map::empty()
    }
    &&& log.aborted == Seq::<(i64, i64)>::empty()
    &&& log.bytes.len() > 0
    &&& log.last_batch.contains_key(producer_id)
    &&& log.last_batch[producer_id] == LastBatch {
        base_sequence: 0,
        next_sequence: 2,
        base_offset: 2,
    }
}

/// Whether a write under a transactional id is part of its transaction.
pub open spec fn opens(
    faults: Seq<Fault>,
    state: ClusterView,
    topic: Seq<char>,
    id: Option<Seq<char>>,
) -> bool {
    id is Some && (log::spec_terms(state, id, topic, 0).announced || !faults.contains(
        Fault::TxnUnannouncedWriteEscapes,
    ))
}

/// What a producer's first write makes of the produced log.
pub proof fn lemma_second(
    setting: Setting,
    before: ClusterView,
    after: ClusterView,
    topic: Seq<char>,
    stamp: ProduceStampOf<Seq<char>>,
    row: ProducedRow,
    records: Seq<u8>,
    sent: Seq<u8>,
)
    requires
        trial::spares(setting.faults, Deed::Stamp),
        took(setting, before, after, topic, stamp, row, records),
        before.logs.contains_key((topic, 0i32)),
        before.logs[(topic, 0i32)] == conformance_log::probe_log(sent),
        sent.len() > 0,
        stamp.producer_id >= 0,
        stamp.base_sequence == 0,
        stamp.transactional_id matches Some(id) ==> before.txns.contains_key(id)
            && before.txns[id].epoch == stamp.producer_epoch,
    ensures
        row.error.ok(),
        row.base_offset == 2,
        after.logs.contains_key((topic, 0i32)),
        is_second(
            after.logs[(topic, 0i32)],
            stamp.producer_id,
            opens(setting.faults, before, topic, stamp.transactional_id),
        ),
{
    let batches = (setting.batches)(records)->Some_0;
    assert(batches.drop_last() =~= Seq::empty());
    reveal_with_fuel(log::appended, 2);
    assert(log::appended(batches) == 2);
    let made = after.logs[(topic, 0i32)];
    assert(made.open =~= if opens(setting.faults, before, topic, stamp.transactional_id) {
        Map::<i64, i64>::empty().insert(stamp.producer_id, 2)
    } else {
        Map::empty()
    });
}

/// Whether producer ids are left to give out.
pub open spec fn has_ids(state: ClusterView) -> bool {
    0 <= state.next_producer_id < i64::MAX
}

/// The first request is the only one where it is granted.
proof fn lemma_identified_at_once(
    ctx: ServerCtx,
    tape: Seq<Event>,
    at: int,
    conn: usize,
    version: i16,
    base: i32,
)
    requires
        asks::spec_ask_init_producer_id(
            tape,
            at,
            Label::Named("InitProducerId"@),
            ActionOf::Call {
                conn,
                version,
                correlation: ctx::spec_correlation(base, 0),
                request: RequestOf::InitProducerId {
                    transactional_id: None,
                    timeout_ms: txn_flows::NO_TIMEOUT,
                },
            },
        ) matches Ok((answer, _)) ==> answer.error.ok(),
    ensures
        txn_flows::spec_init_idempotent(
            ctx,
            tape,
            at,
            conn,
            version,
            base,
            0,
            ""@,
        ) == asks::spec_ask_init_producer_id(
            tape,
            at,
            Label::Named("InitProducerId"@),
            ActionOf::Call {
                conn,
                version,
                correlation: ctx::spec_correlation(base, 0),
                request: RequestOf::InitProducerId {
                    transactional_id: None,
                    timeout_ms: txn_flows::NO_TIMEOUT,
                },
            },
        ),
{
}

/// A producer id without a transaction.
proof fn lemma_init_idempotent(
    setting: Setting,
    ctx: ServerCtx,
    tape: Seq<Event>,
    worlds: Seq<World>,
    at: int,
    conn: usize,
    version: i16,
    base: i32,
)
    requires
        0 <= at <= tape.len(),
        conformance::is_modern(setting.schema),
        conformance::is_up(worlds[at].state),
        conformance::is_open(worlds[at], conn),
        setting.schema.init_producer_id.min <= version <= setting.schema.init_producer_id.max,
        has_ids(worlds[at].state),
        forall|i: int|
            at <= i < tape.len() ==> conformance::follows(
                setting,
                tape,
                worlds,
                i,
                txn_flows::spec_init_idempotent(
                    ctx,
                    #[trigger] tape.take(i),
                    at,
                    conn,
                    version,
                    base,
                    0,
                    ""@,
                ),
            ),
    ensures
        match txn_flows::spec_init_idempotent(ctx, tape, at, conn, version, base, 0, ""@) {
            Ok((identity, to)) => {
                &&& at <= to <= tape.len()
                &&& worlds[to].lines == worlds[at].lines
                &&& worlds[to].state == (
                    ClusterView {
                        next_producer_id: worlds[to].state.next_producer_id,
                        ..worlds[at].state
                    }
                )
                &&& identity.producer_id >= 0
                &&& forall|i: int|
                    to <= i <= tape.len() ==> txn_flows::spec_init_idempotent(
                        ctx,
                        #[trigger] tape.take(i),
                        at,
                        conn,
                        version,
                        base,
                        0,
                        ""@,
                    )
                        == Ok::<(InitProducerIdAnswer, int), HaltView>((identity, to))
            },
            Err(HaltView::Ask(_)) => true,
            _ => false,
        },
{
    let correlation = ctx::spec_correlation(base, 0);
    let label = Label::Named("InitProducerId"@);
    assert forall|i: int| at <= i < tape.len() implies conformance::follows(
        setting,
        tape,
        worlds,
        i,
        asks::spec_ask_init_producer_id(
            #[trigger] tape.take(i),
            at,
            Label::Named("InitProducerId"@),
            ActionOf::Call {
                conn,
                version,
                correlation: ctx::spec_correlation(base, 0),
                request: RequestOf::InitProducerId {
                    transactional_id: None,
                    timeout_ms: txn_flows::NO_TIMEOUT,
                },
            },
        ),
    ) by {
        assert(
            asks::spec_ask_init_producer_id(
                tape.take(i),
                at,
                Label::Named("InitProducerId"@),
                ActionOf::Call {
                    conn,
                    version,
                    correlation: ctx::spec_correlation(base, 0),
                    request: RequestOf::InitProducerId {
                        transactional_id: None,
                        timeout_ms: txn_flows::NO_TIMEOUT,
                    },
                },
            ) matches Err(halt) ==> txn_flows::spec_init_idempotent(ctx, tape.take(i), at, conn, version, base, 0, ""@) == Err::<(InitProducerIdAnswer, int), HaltView>(halt)
        );
    }
    lemma_init(
        setting,
        tape,
        worlds,
        at,
        label,
        conn,
        version,
        correlation,
        None,
        txn_flows::NO_TIMEOUT,
    );
    lemma_identified_at_once(ctx, tape, at, conn, version, base);
    assert forall|i: int| at < i <= tape.len() && asks::spec_ask_init_producer_id(
        tape,
        at,
        Label::Named("InitProducerId"@),
        ActionOf::Call {
            conn,
            version,
            correlation: ctx::spec_correlation(base, 0),
            request: RequestOf::InitProducerId {
                transactional_id: None,
                timeout_ms: txn_flows::NO_TIMEOUT,
            },
        },
    ) is Ok implies txn_flows::spec_init_idempotent(ctx, #[trigger] tape.take(i), at, conn, version, base, 0, ""@)
        == txn_flows::spec_init_idempotent(ctx, tape, at, conn, version, base, 0, ""@) by {
        lemma_identified_at_once(ctx, tape.take(i), at, conn, version, base);
    }
}

/// An end of a log.
proof fn lemma_list_end(
    setting: Setting,
    tape: Seq<Event>,
    worlds: Seq<World>,
    at: int,
    conn: usize,
    version: i16,
    topic: Seq<char>,
    timestamp: i64,
    correlation: i32,
)
    requires
        trial::spares(setting.faults, Deed::Span),
        0 <= at <= tape.len(),
        conformance::is_modern(setting.schema),
        conformance::is_up(worlds[at].state),
        conformance::is_open(worlds[at], conn),
        setting.schema.list_offsets.min <= version <= setting.schema.list_offsets.max,
        worlds[at].state.logs.contains_key((topic, 0i32)),
        timestamp == wire::EARLIEST_TIMESTAMP || timestamp == wire::LATEST_TIMESTAMP,
        forall|i: int|
            at <= i < tape.len() ==> conformance::follows(
                setting,
                tape,
                worlds,
                i,
                log_flows::spec_list_offset_of(
                    #[trigger] tape.take(i),
                    at,
                    conn,
                    version,
                    topic,
                    timestamp,
                    correlation,
                ),
            ),
    ensures
        match log_flows::spec_list_offset_of(
            tape,
            at,
            conn,
            version,
            topic,
            timestamp,
            correlation,
        ) {
            Ok((offset, to)) => {
                &&& at <= to <= tape.len()
                &&& worlds[to] == worlds[at]
                &&& offset == if timestamp == wire::EARLIEST_TIMESTAMP { 0i64 } else {
                    worlds[at].state.logs[(topic, 0i32)].next_offset
                }
                &&& forall|i: int|
                    to <= i <= tape.len() ==> log_flows::spec_list_offset_of(
                        #[trigger] tape.take(i),
                        at,
                        conn,
                        version,
                        topic,
                        timestamp,
                        correlation,
                    )
                        == Ok::<(i64, int), HaltView>((offset, to))
            },
            Err(HaltView::Ask(_)) => true,
            _ => false,
        },
{
    conformance_reads::lemma_list_offsets(
        setting,
        tape,
        worlds,
        at,
        conn,
        version,
        topic,
        timestamp,
        correlation,
    );
}

/// How far a log reaches.
proof fn lemma_log_span(
    setting: Setting,
    ctx: ServerCtx,
    tape: Seq<Event>,
    worlds: Seq<World>,
    at: int,
    conn: usize,
    topic: Seq<char>,
    correlation: i32,
)
    requires
        trial::spares(setting.faults, Deed::Span),
        0 <= at <= tape.len(),
        conformance::is_learned(setting, ctx),
        conformance::is_up(worlds[at].state),
        conformance::is_open(worlds[at], conn),
        worlds[at].state.logs.contains_key((topic, 0i32)),
        forall|i: int|
            at <= i < tape.len() ==> conformance::follows(
                setting,
                tape,
                worlds,
                i,
                log_flows::spec_log_span(
                    ctx,
                    #[trigger] tape.take(i),
                    at,
                    conn,
                    topic,
                    correlation,
                ),
            ),
    ensures
        match log_flows::spec_log_span(ctx, tape, at, conn, topic, correlation) {
            Ok((span, to)) => {
                &&& at <= to <= tape.len()
                &&& worlds[to] == worlds[at]
                &&& span == worlds[at].state.logs[(topic, 0i32)].next_offset
                &&& forall|i: int|
                    to <= i <= tape.len() ==> log_flows::spec_log_span(
                        ctx,
                        #[trigger] tape.take(i),
                        at,
                        conn,
                        topic,
                        correlation,
                    )
                        == Ok::<(i64, int), HaltView>((span, to))
            },
            Err(HaltView::Ask(_)) => true,
            _ => false,
        },
{
    conformance::lemma_ranges(setting.schema);
    let version = setting.schema.list_offsets.max;
    lemma_list_end(
        setting,
        tape,
        worlds,
        at,
        conn,
        version,
        topic,
        wire::EARLIEST_TIMESTAMP,
        correlation,
    );
    match log_flows::spec_list_offset_of(
        tape,
        at,
        conn,
        version,
        topic,
        wire::EARLIEST_TIMESTAMP,
        correlation,
    ) {
        Ok((_, asked)) => {
            lemma_list_end(
                setting,
                tape,
                worlds,
                asked,
                conn,
                version,
                topic,
                wire::LATEST_TIMESTAMP,
                correlation.wrapping_add(1),
            );
        },
        Err(_) => {},
    }
}

/// A stamped write, and one that leaves a gap.
pub open spec fn gap_after(
    ctx: ServerCtx,
    tape: Seq<Event>,
    at: int,
    conn: usize,
    version: i16,
    identity: InitProducerIdAnswer,
    topic: Seq<char>,
) -> FlowView<VerdictView> {
    match tape::spec_doing(
        txn_flows::spec_produce_stamped(
            tape,
            at,
            conn,
            version,
            batch::spec_idempotent(identity, 0),
            topic,
            760,
        ),
        "Produce (first)"@,
    ) {
        Err(halt) => Err(halt),
        Ok((first, at)) => if !first.error.ok() {
            Err(
                tape::spec_fail("the first stamped produce answered "@ + first.error.shown@, at),
            )
        } else {
            match tape::spec_doing(
                txn_flows::spec_produce_stamped(
                    tape,
                    at,
                    conn,
                    version,
                    batch::spec_idempotent(identity, server_txn::GAP_SEQUENCE),
                    topic,
                    770,
                ),
                "Produce (gap)"@,
            ) {
                Err(halt) => Err(halt),
                Ok((second, at)) => tape::spec_rule(server_txn::spec_judge_gap(second), at),
            }
        },
    }
}

/// A stamped write and its retry, and how far the log has grown.
pub open spec fn retry_after(
    ctx: ServerCtx,
    tape: Seq<Event>,
    at: int,
    conn: usize,
    version: i16,
    identity: InitProducerIdAnswer,
    topic: Seq<char>,
    before: i64,
) -> FlowView<VerdictView> {
    match tape::spec_doing(
        txn_flows::spec_produce_stamped(
            tape,
            at,
            conn,
            version,
            batch::spec_idempotent(identity, 0),
            topic,
            720,
        ),
        "Produce (first)"@,
    ) {
        Err(halt) => Err(halt),
        Ok((first, at)) => if !first.error.ok() {
            Err(
                tape::spec_fail("the first stamped produce answered "@ + first.error.shown@, at),
            )
        } else {
            match tape::spec_doing(
                txn_flows::spec_produce_stamped(
                    tape,
                    at,
                    conn,
                    version,
                    batch::spec_idempotent(identity, 0),
                    topic,
                    730,
                ),
                "Produce (retry)"@,
            ) {
                Err(halt) => Err(halt),
                Ok((retry, at)) => match tape::spec_doing(
                    log_flows::spec_log_span(ctx, tape, at, conn, topic, 740),
                    "ListOffsets (after)"@,
                ) {
                    Err(halt) => Err(halt),
                    Ok((after, at)) => tape::spec_rule(
                        server_txn::spec_judge_retry(
                            identity.producer_id,
                            first,
                            retry,
                            after.wrapping_sub(before),
                        ),
                        at,
                    ),
                },
            }
        },
    }
}

#[verifier::rlimit(30)]
proof fn lemma_gap_after(
    setting: Setting,
    ctx: ServerCtx,
    tape: Seq<Event>,
    worlds: Seq<World>,
    at: int,
    conn: usize,
    version: i16,
    identity: InitProducerIdAnswer,
    topic: Seq<char>,
    sent: Seq<u8>,
)
    requires
        trial::spares(setting.faults, Deed::Shape),
        trial::spares(setting.faults, Deed::Stamp),
        trial::is_trial(ServerCheck::ProduceSequenceGapIsRefused, setting.faults),
        trial::spares(setting.faults, Deed::Write),
        0 <= at <= tape.len(),
        conformance::is_learned(setting, ctx),
        conformance::is_up(worlds[at].state),
        conformance::is_open(worlds[at], conn),
        setting.schema.produce.min <= version <= setting.schema.produce.max,
        worlds[at].lines[conn as int].node_id == worlds[at].state.placement(topic),
        topic.len() > 0,
        identity.producer_id >= 0,
        worlds[at].state.logs.contains_key((topic, 0i32)),
        worlds[at].state.logs[(topic, 0i32)] == conformance_log::probe_log(sent),
        sent.len() > 0,
        forall|i: int|
            at <= i < tape.len() ==> conformance::follows(
                setting,
                tape,
                worlds,
                i,
                gap_after(ctx, #[trigger] tape.take(i), at, conn, version, identity, topic),
            ),
    ensures
        trial::judged(setting.faults, gap_after(ctx, tape, at, conn, version, identity, topic)),
{
    let stamp = batch::spec_idempotent(identity, 0);
    let again = batch::spec_idempotent(identity, server_txn::GAP_SEQUENCE);
    lemma_produce_stamped(setting, tape, worlds, at, conn, version, stamp, topic, 760);
    match txn_flows::spec_produce_stamped(tape, at, conn, version, stamp, topic, 760) {
        Ok((row, told)) => {
            let records = choose|records: Seq<u8>| #[trigger]
                took(setting, worlds[at].state, worlds[told].state, topic, stamp, row, records);
            lemma_second(
                setting,
                worlds[at].state,
                worlds[told].state,
                topic,
                stamp,
                row,
                records,
                sent,
            );
            conformance_log::lemma_same_placement(worlds[at].state, worlds[told].state, topic);
            lemma_produce_stamped(setting, tape, worlds, told, conn, version, again, topic, 770);
        },
        Err(_) => {},
    }
}

/// The probe batch takes two offsets.
proof fn lemma_two_records(setting: Setting, records: Seq<u8>, stamp: BatchStamp)
    requires
        conformance::encodes_probe(setting, records, stamp),
    ensures
        log::appended((setting.batches)(records)->Some_0) == 2,
{
    let batches = (setting.batches)(records)->Some_0;
    assert(batches.drop_last() =~= Seq::empty());
    reveal_with_fuel(log::appended, 2);
}

#[verifier::rlimit(30)]
proof fn lemma_retry_after(
    setting: Setting,
    ctx: ServerCtx,
    tape: Seq<Event>,
    worlds: Seq<World>,
    at: int,
    conn: usize,
    version: i16,
    identity: InitProducerIdAnswer,
    topic: Seq<char>,
    before: i64,
    sent: Seq<u8>,
)
    requires
        trial::spares(setting.faults, Deed::Shape),
        trial::spares(setting.faults, Deed::Stamp),
        trial::spares(setting.faults, Deed::Span),
        trial::is_trial(ServerCheck::ProduceIdempotentRetryIsDeduped, setting.faults),
        trial::spares(setting.faults, Deed::Write),
        0 <= at <= tape.len(),
        conformance::is_learned(setting, ctx),
        conformance::is_up(worlds[at].state),
        conformance::is_open(worlds[at], conn),
        setting.schema.produce.min <= version <= setting.schema.produce.max,
        worlds[at].lines[conn as int].node_id == worlds[at].state.placement(topic),
        topic.len() > 0,
        identity.producer_id >= 0,
        worlds[at].state.logs.contains_key((topic, 0i32)),
        worlds[at].state.logs[(topic, 0i32)] == conformance_log::probe_log(sent),
        sent.len() > 0,
        before == 2,
        forall|i: int|
            at <= i < tape.len() ==> conformance::follows(
                setting,
                tape,
                worlds,
                i,
                retry_after(
                    ctx,
                    #[trigger] tape.take(i),
                    at,
                    conn,
                    version,
                    identity,
                    topic,
                    before,
                ),
            ),
    ensures
        trial::judged(
            setting.faults,
            retry_after(ctx, tape, at, conn, version, identity, topic, before),
        ),
{
    let stamp = batch::spec_idempotent(identity, 0);
    let again = batch::spec_idempotent(identity, 0);
    lemma_produce_stamped(setting, tape, worlds, at, conn, version, stamp, topic, 720);
    match txn_flows::spec_produce_stamped(tape, at, conn, version, stamp, topic, 720) {
        Ok((row, told)) => {
            let records = choose|records: Seq<u8>| #[trigger]
                took(setting, worlds[at].state, worlds[told].state, topic, stamp, row, records);
            lemma_second(
                setting,
                worlds[at].state,
                worlds[told].state,
                topic,
                stamp,
                row,
                records,
                sent,
            );
            conformance_log::lemma_same_placement(worlds[at].state, worlds[told].state, topic);
            lemma_produce_stamped(setting, tape, worlds, told, conn, version, again, topic, 730);
            match txn_flows::spec_produce_stamped(tape, told, conn, version, again, topic, 730) {
                Ok((other, repeated)) => {
                    let sent_again = choose|records: Seq<u8>| #[trigger]
                        took(
                            setting,
                            worlds[told].state,
                            worlds[repeated].state,
                            topic,
                            again,
                            other,
                            records,
                        );
                    lemma_two_records(setting, sent_again, again.spec_on_batch());
                    lemma_log_span(setting, ctx, tape, worlds, repeated, conn, topic, 740);
                },
                Err(_) => {},
            }
        },
        Err(_) => {},
    }
}

#[verifier::rlimit(30)]
pub proof fn lemma_produce_sequence_gap_is_refused(
    setting: Setting,
    ctx: ServerCtx,
    tape: Seq<Event>,
    worlds: Seq<World>,
)
    requires
        trial::is_trial(ServerCheck::ProduceSequenceGapIsRefused, setting.faults),
        conformance::is_set(setting, ctx, worlds[0].state),
        has_ids(worlds[0].state),
        forall|i: int|
            0 <= i < tape.len() ==> conformance::follows(
                setting,
                tape,
                worlds,
                i,
                server_txn::spec_produce_sequence_gap_is_refused(ctx, #[trigger] tape.take(i)),
            ),
    ensures
        trial::judged(setting.faults, server_txn::spec_produce_sequence_gap_is_refused(ctx, tape)),
{
    assert(trial::spares(setting.faults, Deed::Shape));
    assert(trial::spares(setting.faults, Deed::Stamp));
    assert(trial::spares(setting.faults, Deed::Write));
    assert(trial::spares(setting.faults, Deed::Topic));
    assert(trial::spares(setting.faults, Deed::Cluster));
    conformance::lemma_ranges(setting.schema);
    conformance::lemma_txn_ranges(setting.schema);
    let version = lesser(setting.schema.init_producer_id.max, txn_flows::TXN_INIT_MAX);
    let produce = lesser(setting.schema.produce.max, flows::PRODUCE_NAME_MAX);
    assert(
        server_txn::spec_idempotence_versions(ctx, 0) == Ok::<(i16, i16), HaltView>(
            (version, produce),
        )
    );
    conformance_log::lemma_produce_flow(setting, ctx, tape, worlds, 0, "seqgap"@, Addressing::Name);
    match flows::spec_produce_flow(ctx, tape, 0, "seqgap"@, Addressing::Name) {
        Ok((produced, at)) => {
            let (conn, topic) = (produced.conn, produced.topic);
            lemma_init_idempotent(setting, ctx, tape, worlds, at, conn, version, 750);
            match txn_flows::spec_init_idempotent(ctx, tape, at, conn, version, 750, 0, ""@) {
                Ok((identity, given)) => {
                    conformance_log::lemma_same_placement(
                        worlds[at].state,
                        worlds[given].state,
                        topic,
                    );
                    lemma_gap_after(
                        setting,
                        ctx,
                        tape,
                        worlds,
                        given,
                        conn,
                        produce,
                        identity,
                        topic,
                        produced.sent,
                    );
                },
                Err(_) => {},
            }
        },
        Err(_) => {},
    }
}

#[verifier::rlimit(30)]
pub proof fn lemma_produce_idempotent_retry_is_deduped(
    setting: Setting,
    ctx: ServerCtx,
    tape: Seq<Event>,
    worlds: Seq<World>,
)
    requires
        trial::is_trial(ServerCheck::ProduceIdempotentRetryIsDeduped, setting.faults),
        conformance::is_set(setting, ctx, worlds[0].state),
        has_ids(worlds[0].state),
        forall|i: int|
            0 <= i < tape.len() ==> conformance::follows(
                setting,
                tape,
                worlds,
                i,
                server_txn::spec_produce_idempotent_retry_is_deduped(ctx, #[trigger] tape.take(i)),
            ),
    ensures
        trial::judged(
            setting.faults,
            server_txn::spec_produce_idempotent_retry_is_deduped(ctx, tape),
        ),
{
    assert(trial::spares(setting.faults, Deed::Shape));
    assert(trial::spares(setting.faults, Deed::Stamp));
    assert(trial::spares(setting.faults, Deed::Span));
    assert(trial::spares(setting.faults, Deed::Write));
    assert(trial::spares(setting.faults, Deed::Topic));
    assert(trial::spares(setting.faults, Deed::Cluster));
    conformance::lemma_ranges(setting.schema);
    conformance::lemma_txn_ranges(setting.schema);
    let version = lesser(setting.schema.init_producer_id.max, txn_flows::TXN_INIT_MAX);
    let produce = lesser(setting.schema.produce.max, flows::PRODUCE_NAME_MAX);
    assert(
        server_txn::spec_idempotence_versions(ctx, 0) == Ok::<(i16, i16), HaltView>(
            (version, produce),
        )
    );
    conformance_log::lemma_produce_flow(setting, ctx, tape, worlds, 0, "dedupe"@, Addressing::Name);
    match flows::spec_produce_flow(ctx, tape, 0, "dedupe"@, Addressing::Name) {
        Ok((produced, at)) => {
            let (conn, topic) = (produced.conn, produced.topic);
            lemma_init_idempotent(setting, ctx, tape, worlds, at, conn, version, 700);
            match txn_flows::spec_init_idempotent(ctx, tape, at, conn, version, 700, 0, ""@) {
                Ok((identity, given)) => {
                    conformance_log::lemma_same_placement(
                        worlds[at].state,
                        worlds[given].state,
                        topic,
                    );
                    lemma_log_span(setting, ctx, tape, worlds, given, conn, topic, 710);
                    match log_flows::spec_log_span(ctx, tape, given, conn, topic, 710) {
                        Ok((before, measured)) => {
                            lemma_retry_after(
                                setting,
                                ctx,
                                tape,
                                worlds,
                                measured,
                                conn,
                                produce,
                                identity,
                                topic,
                                before,
                                produced.sent,
                            );
                        },
                        Err(_) => {},
                    }
                },
                Err(_) => {},
            }
        },
        Err(_) => {},
    }
}

} // verus!

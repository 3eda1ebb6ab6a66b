//! Runs of the checks on coordinators and on classic groups.

use vstd::prelude::*;
use vstd::string::*;

use crate::checks::asks;
use crate::checks::calibration_groups;
use crate::checks::calibration_state;
use crate::checks::conformance;
use crate::checks::conformance::{Setting, World};
use crate::checks::conformance_log;
use crate::checks::ctx;
use crate::checks::ctx::ServerCtx;
use crate::checks::find;
use crate::checks::group_flows;
use crate::checks::server::ServerCheck;
use crate::checks::server_groups;
use crate::checks::tape;
use crate::checks::tape::{ActionOf, Event, FlowView, HaltView, Label};
use crate::checks::trial;
use crate::checks::trial::Deed;
use crate::subject::Fault;
use crate::subject::groups;
use crate::subject::requests::{GivenAssignmentView, JoinGroupAskView, ProtocolView};
use crate::subject::state::ClusterView;
use crate::wire;
use crate::wire::{
    DescribedRow, ErrorCode, FindCoordinatorAnswer, JoinGroupAnswer, RequestOf, Response, Schema,
    SyncGroupAnswer, FIND_COORDINATOR,
};
use crate::VerdictView;

verus! {

/// Whether what names a coordinator names whose it is, as far as an answer
/// has room for that.
pub open spec fn names_key(faults: Seq<Fault>, version: i16) -> bool {
    !(faults.contains(Fault::FindCoordinatorWrongKey) && version >= wire::FIND_COORDINATOR_BATCHED)
}

/// A FindCoordinator request on an open connection.
pub proof fn lemma_find_coordinator(
    setting: Setting,
    tape: Seq<Event>,
    worlds: Seq<World>,
    at: int,
    label: Label<Seq<char>>,
    conn: usize,
    version: i16,
    correlation: i32,
    key_type: i8,
    key: Seq<char>,
)
    requires
        trial::spares(setting.faults, Deed::Find),
        0 <= at <= tape.len(),
        conformance::is_modern(setting.schema),
        conformance::is_placed(worlds[at].state),
        worlds[at].state.live().len() > 0,
        conformance::is_served(worlds[at], conn),
        setting.schema.find_coordinator.min <= version <= setting.schema.find_coordinator.max,
        forall|i: int|
            at <= i < tape.len() ==> conformance::follows(
                setting,
                tape,
                worlds,
                i,
                asks::spec_ask_find_coordinator(
                    #[trigger] tape.take(i),
                    at,
                    label,
                    ActionOf::Call {
                        conn,
                        version,
                        correlation,
                        request: RequestOf::FindCoordinator {
                            key_type,
                            key,
                            batched: version >= wire::FIND_COORDINATOR_BATCHED,
                        },
                    },
                ),
            ),
    ensures
        match asks::spec_ask_find_coordinator(
            tape,
            at,
            label,
            ActionOf::Call {
                conn,
                version,
                correlation,
                request: RequestOf::FindCoordinator {
                    key_type,
                    key,
                    batched: version >= wire::FIND_COORDINATOR_BATCHED,
                },
            },
        ) {
            Ok((answer, to)) => {
                &&& at <= to <= tape.len()
                &&& to == at + 1
                &&& worlds[to] == worlds[at]
                &&& !find::coordinator_settling(answer, version)
                &&& trial::deserved(
                    names_key(setting.faults, version),
                    server_groups::spec_judge_coordinator(answer, version, key),
                )
                &&& exists|k: int| conformance_log::leads(
                    worlds[at].state,
                    key,
                    k,
                ) && find::spec_coordinator_endpoint(answer, version) == Some(
                    conformance::address_of(worlds[at].state.ports[k]),
                )
                &&& forall|i: int|
                    to <= i <= tape.len() ==> asks::spec_ask_find_coordinator(
                        #[trigger] tape.take(i),
                        at,
                        label,
                        ActionOf::Call {
                            conn,
                            version,
                            correlation,
                            request: RequestOf::FindCoordinator {
                                key_type,
                                key,
                                batched: version >= wire::FIND_COORDINATOR_BATCHED,
                            },
                        },
                    )
                        == Ok::<(FindCoordinatorAnswer, int), HaltView>((answer, to))
            },
            Err(HaltView::Ask(_)) => true,
            _ => false,
        },
{
    conformance::lemma_group_ranges(setting.schema);
    reveal_strlit("127.0.0.1");
    reveal_strlit("-not-yours");
    assert((key + "-not-yours"@).len() != key.len());
    let state = worlds[at].state;
    let k = conformance_log::lemma_placed(state, key);
    assert(conformance_log::leads(state, key, k));
    assert(1 <= state.ports[k] <= 65535);
    if at < tape.len() {
        assert(tape.take(at).len() == at);
    }
    let request = RequestOf::FindCoordinator {
        key_type,
        key,
        batched: version >= wire::FIND_COORDINATOR_BATCHED,
    };
    conformance::lemma_call(setting, tape, worlds, at, label, conn, version, correlation, request);
    match tape::spec_call(tape, at, label, ActionOf::Call { conn, version, correlation, request }) {
        Ok((Response::FindCoordinator(answer), _)) => {
            if version >= wire::FIND_COORDINATOR_BATCHED {
                assert(answer.coordinators@[0].error.code == wire::NONE);
            }
        },
        _ => {},
    }
}

/// The first question about a coordinator, where it is the only one.
pub open spec fn named_at_once(
    tape: Seq<Event>,
    at: int,
    conn: usize,
    version: i16,
    correlation: i32,
    key_type: i8,
    key: Seq<char>,
) -> FlowView<Option<Seq<char>>> {
    match asks::spec_ask_find_coordinator(
        tape,
        at,
        Label::Named("FindCoordinator"@),
        ActionOf::Call {
            conn,
            version,
            correlation,
            request: RequestOf::FindCoordinator {
                key_type,
                key,
                batched: version >= wire::FIND_COORDINATOR_BATCHED,
            },
        },
    ) {
        Err(halt) => Err(halt),
        Ok((answer, at)) => Ok((find::spec_coordinator_endpoint(answer, version), at)),
    }
}

/// No more questions are asked where the answer does not say to wait.
pub proof fn lemma_named_at_once(
    ctx: ServerCtx,
    tape: Seq<Event>,
    at: int,
    conn: usize,
    version: i16,
    key_type: i8,
    key: Seq<char>,
    base: i32,
)
    requires
        ({
            let correlation = ctx::spec_correlation(base, 0);
            asks::spec_ask_find_coordinator(
                tape,
                at,
                Label::Named("FindCoordinator"@),
                ActionOf::Call {
                    conn,
                    version,
                    correlation,
                    request: RequestOf::FindCoordinator {
                        key_type,
                        key,
                        batched: version >= wire::FIND_COORDINATOR_BATCHED,
                    },
                },
            ) matches Ok((answer, _)) ==> !find::coordinator_settling(answer, version)
        }),
    ensures
        group_flows::spec_ask_coordinator(ctx, tape, at, conn, version, key_type, key, base, 0)
            == named_at_once(
                tape,
                at,
                conn,
                version,
                ctx::spec_correlation(base, 0),
                key_type,
                key,
            ),
{
}

/// Asking who coordinates.
pub proof fn lemma_ask_coordinator(
    setting: Setting,
    ctx: ServerCtx,
    tape: Seq<Event>,
    worlds: Seq<World>,
    at: int,
    conn: usize,
    version: i16,
    key_type: i8,
    key: Seq<char>,
    base: i32,
)
    requires
        trial::spares(setting.faults, Deed::Find),
        0 <= at <= tape.len(),
        conformance::is_modern(setting.schema),
        conformance::is_placed(worlds[at].state),
        worlds[at].state.live().len() > 0,
        conformance::is_served(worlds[at], conn),
        setting.schema.find_coordinator.min <= version <= setting.schema.find_coordinator.max,
        forall|i: int|
            at <= i < tape.len() ==> conformance::follows(
                setting,
                tape,
                worlds,
                i,
                group_flows::spec_ask_coordinator(
                    ctx,
                    #[trigger] tape.take(i),
                    at,
                    conn,
                    version,
                    key_type,
                    key,
                    base,
                    0,
                ),
            ),
    ensures
        match group_flows::spec_ask_coordinator(
            ctx,
            tape,
            at,
            conn,
            version,
            key_type,
            key,
            base,
            0,
        ) {
            Ok((addr, to)) => {
                &&& at <= to <= tape.len()
                &&& to == at + 1
                &&& worlds[to] == worlds[at]
                &&& exists|k: int| conformance_log::leads(worlds[at].state, key, k) && addr == Some(
                    conformance::address_of(worlds[at].state.ports[k]),
                )
                &&& forall|i: int|
                    to <= i <= tape.len() ==> group_flows::spec_ask_coordinator(
                        ctx,
                        #[trigger] tape.take(i),
                        at,
                        conn,
                        version,
                        key_type,
                        key,
                        base,
                        0,
                    )
                        == Ok::<(Option<Seq<char>>, int), HaltView>((addr, to))
            },
            Err(HaltView::Ask(_)) => true,
            _ => false,
        },
{
    let correlation = ctx::spec_correlation(base, 0);
    let label = Label::Named("FindCoordinator"@);
    assert forall|i: int| at <= i < tape.len() implies conformance::follows(
        setting,
        tape,
        worlds,
        i,
        asks::spec_ask_find_coordinator(
            #[trigger] tape.take(i),
            at,
            label,
            ActionOf::Call {
                conn,
                version,
                correlation,
                request: RequestOf::FindCoordinator {
                    key_type,
                    key,
                    batched: version >= wire::FIND_COORDINATOR_BATCHED,
                },
            },
        ),
    ) by {
        assert(
            asks::spec_ask_find_coordinator(
                tape.take(i),
                at,
                label,
                ActionOf::Call {
                    conn,
                    version,
                    correlation,
                    request: RequestOf::FindCoordinator {
                        key_type,
                        key,
                        batched: version >= wire::FIND_COORDINATOR_BATCHED,
                    },
                },
            ) matches Err(halt) ==> group_flows::spec_ask_coordinator(ctx, tape.take(i), at, conn, version, key_type, key, base, 0) == Err::<(Option<Seq<char>>, int), HaltView>(halt)
        );
    }
    lemma_find_coordinator(
        setting,
        tape,
        worlds,
        at,
        label,
        conn,
        version,
        correlation,
        key_type,
        key,
    );
    lemma_named_at_once(ctx, tape, at, conn, version, key_type, key, base);
    assert forall|i: int| at < i <= tape.len() implies group_flows::spec_ask_coordinator(
        ctx,
        #[trigger] tape.take(i),
        at,
        conn,
        version,
        key_type,
        key,
        base,
        0,
    )
        == named_at_once(tape.take(i), at, conn, version, correlation, key_type, key) by {
        lemma_named_at_once(ctx, tape.take(i), at, conn, version, key_type, key, base);
    }
}

/// A connection to the broker that coordinates a group.
#[verifier::rlimit(30)]
pub proof fn lemma_coordinator_conn(
    setting: Setting,
    ctx: ServerCtx,
    tape: Seq<Event>,
    worlds: Seq<World>,
    at: int,
    group: Seq<char>,
)
    requires
        trial::spares(setting.faults, Deed::Find),
        0 <= at <= tape.len(),
        conformance::is_set(setting, ctx, worlds[at].state),
        forall|i: int|
            at <= i < tape.len() ==> conformance::follows(
                setting,
                tape,
                worlds,
                i,
                group_flows::spec_coordinator_conn(ctx, #[trigger] tape.take(i), at, group),
            ),
    ensures
        match group_flows::spec_coordinator_conn(ctx, tape, at, group) {
            Ok((conn, to)) => {
                &&& at <= to <= tape.len()
                &&& worlds[to].state == worlds[at].state
                &&& conformance::extends(worlds[at], worlds[to])
                &&& conformance::is_open(worlds[to], conn)
                &&& worlds[to].lines[conn as int].node_id == worlds[at].state.placement(group)
                &&& forall|i: int|
                    to <= i <= tape.len() ==> group_flows::spec_coordinator_conn(
                        ctx,
                        #[trigger] tape.take(i),
                        at,
                        group,
                    )
                        == Ok::<(usize, int), HaltView>((conn, to))
            },
            Err(HaltView::Ask(_)) => true,
            _ => false,
        },
{
    conformance_log::lemma_some_live(worlds[at].state);
    conformance::lemma_group_ranges(setting.schema);
    let version = setting.schema.find_coordinator.max;
    if at < tape.len() {
        assert(tape.take(at).len() == at);
    }
    conformance::lemma_connect(setting, tape, worlds, at, ctx.addr@);
    match tape::spec_connect(tape, at, ctx.addr@) {
        Ok((first, connected)) => {
            lemma_ask_coordinator(
                setting,
                ctx,
                tape,
                worlds,
                connected,
                first,
                version,
                0,
                group,
                80,
            );
            match group_flows::spec_ask_coordinator(
                ctx,
                tape,
                connected,
                first,
                version,
                0,
                group,
                80,
                0,
            ) {
                Ok((found, told)) => {
                    let state = worlds[at].state;
                    let k = choose|k: int|
                        conformance_log::leads(state, group, k) && found == Some(
                            conformance::address_of(state.ports[k]),
                        );
                    let addr = conformance::address_of(state.ports[k]);
                    assert(conformance::listens(state, k, addr));
                    assert(conformance::is_heard(state, addr));
                    if told < tape.len() {
                        assert(tape.take(told).len() == told);
                    }
                    conformance::lemma_connect(setting, tape, worlds, told, addr);
                },
                Err(_) => {},
            }
        },
        Err(_) => {},
    }
}

/// No more questions are asked where the answer does not say to wait.
proof fn lemma_judged_at_once(
    ctx: ServerCtx,
    tape: Seq<Event>,
    at: int,
    conn: usize,
    version: i16,
    group: Seq<char>,
    base: i32,
)
    requires
        ({
            let (key_type, key, correlation) = (0i8, group, ctx::spec_correlation(base, 0));
            asks::spec_ask_find_coordinator(
                tape,
                at,
                Label::Final("FindCoordinator"@),
                ActionOf::Call {
                    conn,
                    version,
                    correlation,
                    request: RequestOf::FindCoordinator {
                        key_type,
                        key,
                        batched: version >= wire::FIND_COORDINATOR_BATCHED,
                    },
                },
            ) matches Ok((answer, _)) ==> !find::coordinator_settling(answer, version)
        }),
    ensures
        ({
            let (key_type, key, correlation) = (0i8, group, ctx::spec_correlation(base, 0));
            server_groups::spec_coordinator_wait(
                ctx,
                tape,
                at,
                conn,
                version,
                group,
                base,
                0,
                ""@,
            ) == match asks::spec_ask_find_coordinator(
                tape,
                at,
                Label::Final("FindCoordinator"@),
                ActionOf::Call {
                    conn,
                    version,
                    correlation,
                    request: RequestOf::FindCoordinator {
                        key_type,
                        key,
                        batched: version >= wire::FIND_COORDINATOR_BATCHED,
                    },
                },
            ) {
                Err(halt) => Err(halt),
                Ok((answer, at)) => Ok(
                    (server_groups::spec_judge_coordinator(answer, version, group), at),
                ),
            }
        }),
{
}

proof fn lemma_coordinator_wait(
    setting: Setting,
    ctx: ServerCtx,
    tape: Seq<Event>,
    worlds: Seq<World>,
    at: int,
    conn: usize,
    version: i16,
    group: Seq<char>,
    base: i32,
)
    requires
        trial::spares(setting.faults, Deed::Find),
        0 <= at <= tape.len(),
        conformance::is_modern(setting.schema),
        conformance::is_up(worlds[at].state),
        conformance::is_open(worlds[at], conn),
        setting.schema.find_coordinator.min <= version <= setting.schema.find_coordinator.max,
        forall|i: int|
            at <= i < tape.len() ==> conformance::follows(
                setting,
                tape,
                worlds,
                i,
                server_groups::spec_coordinator_wait(
                    ctx,
                    #[trigger] tape.take(i),
                    at,
                    conn,
                    version,
                    group,
                    base,
                    0,
                    ""@,
                ),
            ),
    ensures
        match server_groups::spec_coordinator_wait(
            ctx,
            tape,
            at,
            conn,
            version,
            group,
            base,
            0,
            ""@,
        ) {
            Ok((verdict, to)) => {
                &&& at <= to <= tape.len()
                &&& worlds[to] == worlds[at]
                &&& trial::deserved(names_key(setting.faults, version), verdict)
                &&& forall|i: int|
                    to <= i <= tape.len() ==> server_groups::spec_coordinator_wait(
                        ctx,
                        #[trigger] tape.take(i),
                        at,
                        conn,
                        version,
                        group,
                        base,
                        0,
                        ""@,
                    )
                        == Ok::<(VerdictView, int), HaltView>((verdict, to))
            },
            Err(HaltView::Ask(_)) => true,
            _ => false,
        },
{
    conformance_log::lemma_some_live(worlds[at].state);
    let (key_type, key, correlation) = (0i8, group, ctx::spec_correlation(base, 0));
    let label = Label::Final("FindCoordinator"@);
    assert forall|i: int| at <= i < tape.len() implies conformance::follows(
        setting,
        tape,
        worlds,
        i,
        asks::spec_ask_find_coordinator(
            #[trigger] tape.take(i),
            at,
            label,
            ActionOf::Call {
                conn,
                version,
                correlation,
                request: RequestOf::FindCoordinator {
                    key_type,
                    key,
                    batched: version >= wire::FIND_COORDINATOR_BATCHED,
                },
            },
        ),
    ) by {
        assert(
            asks::spec_ask_find_coordinator(
                tape.take(i),
                at,
                label,
                ActionOf::Call {
                    conn,
                    version,
                    correlation,
                    request: RequestOf::FindCoordinator {
                        key_type,
                        key,
                        batched: version >= wire::FIND_COORDINATOR_BATCHED,
                    },
                },
            ) matches Err(halt) ==> server_groups::spec_coordinator_wait(ctx, tape.take(i), at, conn, version, group, base, 0, ""@) == Err::<(VerdictView, int), HaltView>(halt)
        );
    }
    lemma_find_coordinator(
        setting,
        tape,
        worlds,
        at,
        label,
        conn,
        version,
        correlation,
        key_type,
        key,
    );
    lemma_judged_at_once(ctx, tape, at, conn, version, group, base);
    assert forall|i: int| at < i <= tape.len() && asks::spec_ask_find_coordinator(
        tape,
        at,
        label,
        ActionOf::Call {
            conn,
            version,
            correlation,
            request: RequestOf::FindCoordinator {
                key_type,
                key,
                batched: version >= wire::FIND_COORDINATOR_BATCHED,
            },
        },
    ) is Ok implies server_groups::spec_coordinator_wait(ctx, #[trigger] tape.take(i), at, conn, version, group, base, 0, ""@)
        == server_groups::spec_coordinator_wait(
            ctx,
            tape,
            at,
            conn,
            version,
            group,
            base,
            0,
            ""@,
        ) by {
        lemma_judged_at_once(ctx, tape.take(i), at, conn, version, group, base);
    }
}

proof fn lemma_find_coordinator_at(
    setting: Setting,
    ctx: ServerCtx,
    tape: Seq<Event>,
    worlds: Seq<World>,
    at: int,
    version: i16,
    group: Seq<char>,
    base: i32,
)
    requires
        trial::spares(setting.faults, Deed::Find),
        0 <= at <= tape.len(),
        conformance::is_set(setting, ctx, worlds[at].state),
        setting.schema.find_coordinator.min <= version <= setting.schema.find_coordinator.max,
        forall|i: int|
            at <= i < tape.len() ==> conformance::follows(
                setting,
                tape,
                worlds,
                i,
                server_groups::spec_find_coordinator_at(
                    ctx,
                    #[trigger] tape.take(i),
                    at,
                    version,
                    group,
                    base,
                ),
            ),
    ensures
        match server_groups::spec_find_coordinator_at(ctx, tape, at, version, group, base) {
            Ok((verdict, to)) => {
                &&& at <= to <= tape.len()
                &&& worlds[to].state == worlds[at].state
                &&& trial::deserved(names_key(setting.faults, version), verdict)
                &&& forall|i: int|
                    to <= i <= tape.len() ==> server_groups::spec_find_coordinator_at(
                        ctx,
                        #[trigger] tape.take(i),
                        at,
                        version,
                        group,
                        base,
                    )
                        == Ok::<(VerdictView, int), HaltView>((verdict, to))
            },
            Err(HaltView::Ask(_)) => true,
            _ => false,
        },
{
    if at < tape.len() {
        assert(tape.take(at).len() == at);
    }
    conformance::lemma_connect(setting, tape, worlds, at, ctx.addr@);
    match tape::spec_connect(tape, at, ctx.addr@) {
        Ok((conn, connected)) => {
            lemma_coordinator_wait(
                setting,
                ctx,
                tape,
                worlds,
                connected,
                conn,
                version,
                group,
                base,
            );
        },
        Err(_) => {},
    }
}

/// The sweep of FindCoordinator's versions, from one of them on.
proof fn lemma_coordinator_sweep(
    setting: Setting,
    ctx: ServerCtx,
    tape: Seq<Event>,
    worlds: Seq<World>,
    at: int,
    group: Seq<char>,
    versions: Seq<i16>,
    n: int,
)
    requires
        trial::spares(setting.faults, Deed::Find),
        0 <= at <= tape.len(),
        0 <= n <= versions.len(),
        conformance::is_set(setting, ctx, worlds[at].state),
        forall|j: int|
            0 <= j < versions.len() ==> setting.schema.find_coordinator.min <= #[trigger] versions[j] <= setting.schema.find_coordinator.max,
        forall|i: int|
            at <= i < tape.len() ==> conformance::follows(
                setting,
                tape,
                worlds,
                i,
                server_groups::spec_coordinator_sweep(
                    ctx,
                    #[trigger] tape.take(i),
                    at,
                    group,
                    versions,
                    n,
                ),
            ),
    ensures
        match server_groups::spec_coordinator_sweep(ctx, tape, at, group, versions, n) {
            Ok((verdict, _)) => {
                &&& verdict == VerdictView::Pass
                &&& n < versions.len() ==> names_key(setting.faults, versions.last())
            },
            Err(HaltView::Ask(_)) => true,
            Err(halt) => setting.faults.contains(Fault::FindCoordinatorWrongKey) && trial::fails(
                halt,
            ),
        },
    decreases versions.len() - n,
{
    if n < versions.len() {
        let version = versions[n];
        let base = ctx::spec_correlation(51, 32 * n);
        lemma_find_coordinator_at(setting, ctx, tape, worlds, at, version, group, base);
        match server_groups::spec_find_coordinator_at(ctx, tape, at, version, group, base) {
            Ok((_, told)) => if names_key(setting.faults, version) {
                lemma_coordinator_sweep(setting, ctx, tape, worlds, told, group, versions, n + 1);
            },
            Err(_) => {},
        }
    }
}

pub proof fn lemma_find_coordinator_group(
    setting: Setting,
    ctx: ServerCtx,
    tape: Seq<Event>,
    worlds: Seq<World>,
)
    requires
        setting.faults.len() > 0 ==> setting.schema.find_coordinator.max
            >= wire::FIND_COORDINATOR_BATCHED,
        trial::is_trial(ServerCheck::FindCoordinatorGroup, setting.faults),
        conformance::is_set(setting, ctx, worlds[0].state),
        forall|i: int|
            0 <= i < tape.len() ==> conformance::follows(
                setting,
                tape,
                worlds,
                i,
                server_groups::spec_find_coordinator_group(ctx, #[trigger] tape.take(i)),
            ),
    ensures
        trial::judged(setting.faults, server_groups::spec_find_coordinator_group(ctx, tape)),
{
    assert(trial::spares(setting.faults, Deed::Find));
    conformance::lemma_group_ranges(setting.schema);
    let oldest = setting.schema.find_coordinator.min;
    let newest = setting.schema.find_coordinator.max;
    let versions = ctx::version_run(oldest, newest);
    assert(ctx.spec_versions(0, "FindCoordinator"@, FIND_COORDINATOR, oldest, newest) == Ok::<
        Seq<i16>,
        HaltView,
    >(versions));
    let group = ctx.spec_check_group("find-coordinator"@);
    lemma_coordinator_sweep(setting, ctx, tape, worlds, 0, group, versions, 0);
}

/// A JoinGroup request as the subject reads it.
pub open spec fn joining(group: Seq<char>, member_id: Seq<char>) -> JoinGroupAskView {
    JoinGroupAskView {
        group_id: group,
        member_id,
        protocol_type: "consumer"@,
        protocols: seq![ProtocolView { name: "range"@, metadata: seq![0u8, 1u8] }],
    }
}

/// A JoinGroup request on an open connection.
pub proof fn lemma_join(
    setting: Setting,
    tape: Seq<Event>,
    worlds: Seq<World>,
    at: int,
    conn: usize,
    version: i16,
    group: Seq<char>,
    member_id: Seq<char>,
    correlation: i32,
)
    requires
        0 <= at <= tape.len(),
        conformance::is_modern(setting.schema),
        conformance::is_up(worlds[at].state),
        conformance::is_open(worlds[at], conn),
        setting.schema.join_group.min <= version <= setting.schema.join_group.max,
        forall|i: int|
            at <= i < tape.len() ==> conformance::follows(
                setting,
                tape,
                worlds,
                i,
                group_flows::spec_join_group(
                    #[trigger] tape.take(i),
                    at,
                    conn,
                    version,
                    group,
                    member_id,
                    correlation,
                ),
            ),
    ensures
        match group_flows::spec_join_group(tape, at, conn, version, group, member_id, correlation) {
            Ok((answer, to)) => {
                &&& at <= to <= tape.len()
                &&& to == at + 1
                &&& worlds[to].lines == worlds[at].lines
                &&& ({
                    let (after, reply) = groups::spec_join_group(
                        worlds[at].state,
                        joining(group, member_id),
                        version,
                        setting.faults,
                    );
                    &&& worlds[to].state == after
                    &&& answer.error.code == reply.error_code
                    &&& answer.member_id@ == reply.member_id
                    &&& answer.generation_id == reply.generation_id
                    &&& answer.leader@ == reply.leader
                })
                &&& forall|i: int|
                    to <= i <= tape.len() ==> group_flows::spec_join_group(
                        #[trigger] tape.take(i),
                        at,
                        conn,
                        version,
                        group,
                        member_id,
                        correlation,
                    )
                        == Ok::<(JoinGroupAnswer, int), HaltView>((answer, to))
            },
            Err(HaltView::Ask(_)) => true,
            _ => false,
        },
{
    conformance::lemma_group_ranges(setting.schema);
    if at < tape.len() {
        assert(tape.take(at).len() == at);
    }
    let request = RequestOf::JoinGroup { group, member_id };
    conformance::lemma_call(
        setting,
        tape,
        worlds,
        at,
        Label::Named("JoinGroup"@),
        conn,
        version,
        correlation,
        request,
    );
}

/// Whether a group has one member, and a generation.
pub open spec fn has_member(
    state: ClusterView,
    group: Seq<char>,
    member_id: Seq<char>,
    generation: i32,
) -> bool {
    &&& state.groups.contains_key(group)
    &&& state.groups[group].members == seq![member_id]
    &&& state.groups[group].generation_id == generation == 1
    &&& member_id.len() > 0
}

/// Who joins a group that has nobody is its one member, and leads it.
proof fn lemma_first_member(
    faults: Seq<Fault>,
    state: ClusterView,
    group: Seq<char>,
    member_id: Seq<char>,
    version: i16,
)
    requires
        groups::group_of(state, group).members.len() == 0,
        groups::group_of(state, group).generation_id == 0,
    ensures
        ({
            let (after, reply) = groups::spec_join_group(
                state,
                joining(group, member_id),
                version,
                faults,
            );
            let id = reply.member_id;
            &&& id.len() > 0
            &&& groups::needs_id(joining(group, member_id), version, faults) ==> {
                &&& reply.error_code == wire::MEMBER_ID_REQUIRED
                &&& groups::group_of(after, group).members.len() == 0
                &&& groups::group_of(after, group).generation_id == 0
            }
            &&& !groups::needs_id(joining(group, member_id), version, faults) ==> {
                &&& reply.error_code == wire::NONE
                &&& reply.leader == id
                &&& reply.generation_id == 1
                &&& member_id.len() > 0 ==> id == member_id
                &&& has_member(after, group, id, 1)
            }
            &&& after == (ClusterView { groups: after.groups, ..state })
        }),
{
    reveal_strlit("odradek-member-");
    let before = groups::group_of(state, group);
    let ask = joining(group, member_id);
    let id = groups::joining_id(before, ask);
    assert(!before.members.contains(id));
    assert(before.members.push(id) =~= seq![id]);
}

/// Joining a group that nobody is in.
pub proof fn lemma_join_as_leader(
    setting: Setting,
    tape: Seq<Event>,
    worlds: Seq<World>,
    at: int,
    conn: usize,
    version: i16,
    group: Seq<char>,
    base: i32,
)
    requires
        0 <= at <= tape.len(),
        conformance::is_modern(setting.schema),
        conformance::is_up(worlds[at].state),
        conformance::is_open(worlds[at], conn),
        setting.schema.join_group.min <= version <= setting.schema.join_group.max,
        !worlds[at].state.groups.contains_key(group),
        forall|i: int|
            at <= i < tape.len() ==> conformance::follows(
                setting,
                tape,
                worlds,
                i,
                group_flows::spec_join_as_leader(
                    #[trigger] tape.take(i),
                    at,
                    conn,
                    version,
                    group,
                    base,
                ),
            ),
    ensures
        match group_flows::spec_join_as_leader(tape, at, conn, version, group, base) {
            Ok((joined, to)) => {
                &&& at <= to <= tape.len()
                &&& worlds[to].lines == worlds[at].lines
                &&& has_member(worlds[to].state, group, joined.0, joined.1)
                &&& conformance::is_up(worlds[to].state)
                &&& forall|i: int|
                    to <= i <= tape.len() ==> group_flows::spec_join_as_leader(
                        #[trigger] tape.take(i),
                        at,
                        conn,
                        version,
                        group,
                        base,
                    )
                        == Ok::<((Seq<char>, i32), int), HaltView>((joined, to))
            },
            Err(HaltView::Ask(_)) => true,
            _ => false,
        },
{
    reveal_strlit("");
    lemma_join(setting, tape, worlds, at, conn, version, group, ""@, base);
    lemma_first_member(setting.faults, worlds[at].state, group, ""@, version);
    match group_flows::spec_join_group(tape, at, conn, version, group, ""@, base) {
        Ok((opening, told)) => {
            if opening.error.code == wire::MEMBER_ID_REQUIRED {
                lemma_first_member(
                    setting.faults,
                    worlds[told].state,
                    group,
                    opening.member_id@,
                    version,
                );
                lemma_join(
                    setting,
                    tape,
                    worlds,
                    told,
                    conn,
                    version,
                    group,
                    opening.member_id@,
                    base.wrapping_add(1),
                );
            }
        },
        Err(_) => {},
    }
}

pub proof fn lemma_groups_member_id_required(
    setting: Setting,
    ctx: ServerCtx,
    tape: Seq<Event>,
    worlds: Seq<World>,
)
    requires
        trial::is_trial(ServerCheck::GroupsMemberIdRequired, setting.faults),
        conformance::is_set(setting, ctx, worlds[0].state),
        !worlds[0].state.groups.contains_key(ctx.spec_check_group("memberid"@)),
        forall|i: int|
            0 <= i < tape.len() ==> conformance::follows(
                setting,
                tape,
                worlds,
                i,
                server_groups::spec_groups_member_id_required(ctx, #[trigger] tape.take(i)),
            ),
    ensures
        trial::judged(setting.faults, server_groups::spec_groups_member_id_required(ctx, tape)),
{
    assert(trial::spares(setting.faults, Deed::Find));
    conformance::lemma_group_ranges(setting.schema);
    reveal_strlit("");
    let version = setting.schema.join_group.max;
    let group = ctx.spec_check_group("memberid"@);
    lemma_coordinator_conn(setting, ctx, tape, worlds, 0, group);
    match group_flows::spec_coordinator_conn(ctx, tape, 0, group) {
        Ok((conn, at)) => {
            lemma_join(setting, tape, worlds, at, conn, version, group, ""@, 120);
            lemma_first_member(setting.faults, worlds[at].state, group, ""@, version);
            match group_flows::spec_join_group(tape, at, conn, version, group, ""@, 120) {
                Ok((refused, told)) => {
                    if setting.faults.len() == 0 {
                        lemma_first_member(
                            setting.faults,
                            worlds[told].state,
                            group,
                            refused.member_id@,
                            version,
                        );
                        lemma_join(
                            setting,
                            tape,
                            worlds,
                            told,
                            conn,
                            version,
                            group,
                            refused.member_id@,
                            121,
                        );
                    }
                },
                Err(_) => {},
            }
        },
        Err(_) => {},
    }
}

/// A SyncGroup request of a group's one member.
pub proof fn lemma_sync(
    setting: Setting,
    tape: Seq<Event>,
    worlds: Seq<World>,
    at: int,
    label: Label<Seq<char>>,
    conn: usize,
    version: i16,
    correlation: i32,
    group: Seq<char>,
    generation: i32,
    member_id: Seq<char>,
    assignment: Seq<u8>,
)
    requires
        0 <= at <= tape.len(),
        conformance::is_modern(setting.schema),
        conformance::is_up(worlds[at].state),
        conformance::is_open(worlds[at], conn),
        setting.schema.sync_group.min <= version <= setting.schema.sync_group.max,
        has_member(worlds[at].state, group, member_id, generation),
        forall|i: int|
            at <= i < tape.len() ==> conformance::follows(
                setting,
                tape,
                worlds,
                i,
                asks::spec_ask_sync_group(
                    #[trigger] tape.take(i),
                    at,
                    label,
                    ActionOf::Call {
                        conn,
                        version,
                        correlation,
                        request: RequestOf::SyncGroup { group, generation, member_id, assignment },
                    },
                ),
            ),
    ensures
        match asks::spec_ask_sync_group(
            tape,
            at,
            label,
            ActionOf::Call {
                conn,
                version,
                correlation,
                request: RequestOf::SyncGroup { group, generation, member_id, assignment },
            },
        ) {
            Ok((answer, to)) => {
                &&& at <= to <= tape.len()
                &&& to == at + 1
                &&& worlds[to].lines == worlds[at].lines
                &&& answer.error.ok()
                &&& answer.assignment@ == groups::kept_assignment(assignment, setting.faults)
                &&& has_member(worlds[to].state, group, member_id, generation)
                &&& conformance::is_up(worlds[to].state)
                &&& forall|i: int|
                    to <= i <= tape.len() ==> asks::spec_ask_sync_group(
                        #[trigger] tape.take(i),
                        at,
                        label,
                        ActionOf::Call {
                            conn,
                            version,
                            correlation,
                            request: RequestOf::SyncGroup {
                                group,
                                generation,
                                member_id,
                                assignment,
                            },
                        },
                    )
                        == Ok::<(SyncGroupAnswer, int), HaltView>((answer, to))
            },
            Err(HaltView::Ask(_)) => true,
            _ => false,
        },
{
    conformance::lemma_group_ranges(setting.schema);
    if at < tape.len() {
        assert(tape.take(at).len() == at);
    }
    let request = RequestOf::SyncGroup { group, generation, member_id, assignment };
    conformance::lemma_call(setting, tape, worlds, at, label, conn, version, correlation, request);
    let given = seq![GivenAssignmentView { member_id, assignment }];
    assert(given.drop_last() =~= Seq::empty());
    reveal_with_fuel(groups::assign_all, 2);
    assert(seq![member_id][0] == member_id);
    assert(seq![member_id].contains(member_id));
}

pub proof fn lemma_groups_assignment_round_trips(
    setting: Setting,
    ctx: ServerCtx,
    tape: Seq<Event>,
    worlds: Seq<World>,
)
    requires
        trial::is_trial(ServerCheck::GroupsAssignmentRoundTrips, setting.faults),
        conformance::is_set(setting, ctx, worlds[0].state),
        !worlds[0].state.groups.contains_key(ctx.spec_check_group("assignment"@)),
        forall|i: int|
            0 <= i < tape.len() ==> conformance::follows(
                setting,
                tape,
                worlds,
                i,
                server_groups::spec_groups_assignment_round_trips(ctx, #[trigger] tape.take(i)),
            ),
    ensures
        trial::judged(setting.faults, server_groups::spec_groups_assignment_round_trips(ctx, tape)),
{
    assert(trial::spares(setting.faults, Deed::Find));
    conformance::lemma_group_ranges(setting.schema);
    let (join, sync) = (setting.schema.join_group.max, setting.schema.sync_group.max);
    let group = ctx.spec_check_group("assignment"@);
    lemma_coordinator_conn(setting, ctx, tape, worlds, 0, group);
    match group_flows::spec_coordinator_conn(ctx, tape, 0, group) {
        Ok((conn, at)) => {
            lemma_join_as_leader(setting, tape, worlds, at, conn, join, group, 130);
            match group_flows::spec_join_as_leader(tape, at, conn, join, group, 130) {
                Ok(((member_id, generation), joined)) => {
                    lemma_sync(
                        setting,
                        tape,
                        worlds,
                        joined,
                        Label::Final("SyncGroup"@),
                        conn,
                        sync,
                        132,
                        group,
                        generation,
                        member_id,
                        server_groups::spec_probe_assignment(),
                    );
                    let probe = server_groups::spec_probe_assignment();
                    let kept = groups::kept_assignment(probe, setting.faults);
                    assert(0xefu8 ^ 1 != 0xefu8) by (bit_vector);
                    assert(setting.faults.len() > 0 ==> kept[8] != probe[8]);
                },
                Err(_) => {},
            }
        },
        Err(_) => {},
    }
}

/// A Heartbeat request on an open connection.
pub proof fn lemma_heartbeat(
    setting: Setting,
    tape: Seq<Event>,
    worlds: Seq<World>,
    at: int,
    label: Label<Seq<char>>,
    conn: usize,
    version: i16,
    group: Seq<char>,
    member_id: Seq<char>,
    generation: i32,
    correlation: i32,
)
    requires
        0 <= at <= tape.len(),
        conformance::is_modern(setting.schema),
        conformance::is_up(worlds[at].state),
        conformance::is_open(worlds[at], conn),
        setting.schema.heartbeat.min <= version <= setting.schema.heartbeat.max,
        worlds[at].state.groups.contains_key(group),
        forall|i: int|
            at <= i < tape.len() ==> conformance::follows(
                setting,
                tape,
                worlds,
                i,
                group_flows::spec_heartbeat_code(
                    #[trigger] tape.take(i),
                    at,
                    label,
                    conn,
                    version,
                    group,
                    member_id,
                    generation,
                    correlation,
                ),
            ),
    ensures
        match group_flows::spec_heartbeat_code(
            tape,
            at,
            label,
            conn,
            version,
            group,
            member_id,
            generation,
            correlation,
        ) {
            Ok((code, to)) => {
                &&& at <= to <= tape.len()
                &&& to == at + 1
                &&& worlds[to].lines == worlds[at].lines
                &&& worlds[to].state == worlds[at].state
                &&& code.code == match groups::spec_fence(
                    worlds[at].state.groups[group],
                    generation,
                    member_id,
                    setting.faults,
                ) {
                    Some(refused) => refused,
                    None => wire::NONE,
                }
                &&& forall|i: int|
                    to <= i <= tape.len() ==> group_flows::spec_heartbeat_code(
                        #[trigger] tape.take(i),
                        at,
                        label,
                        conn,
                        version,
                        group,
                        member_id,
                        generation,
                        correlation,
                    )
                        == Ok::<(ErrorCode, int), HaltView>((code, to))
            },
            Err(HaltView::Ask(_)) => true,
            _ => false,
        },
{
    conformance::lemma_group_ranges(setting.schema);
    if at < tape.len() {
        assert(tape.take(at).len() == at);
    }
    let request = RequestOf::Heartbeat { group, generation, member_id };
    conformance::lemma_call(setting, tape, worlds, at, label, conn, version, correlation, request);
    if at < tape.len() {
        let state = worlds[at].state;
        assert(state.groups.insert(group, state.groups[group]) =~= state.groups);
    }
}

pub proof fn lemma_groups_stale_generation_fenced(
    setting: Setting,
    ctx: ServerCtx,
    tape: Seq<Event>,
    worlds: Seq<World>,
)
    requires
        trial::is_trial(ServerCheck::GroupsStaleGenerationFenced, setting.faults),
        conformance::is_set(setting, ctx, worlds[0].state),
        !worlds[0].state.groups.contains_key(ctx.spec_check_group("fencing"@)),
        forall|i: int|
            0 <= i < tape.len() ==> conformance::follows(
                setting,
                tape,
                worlds,
                i,
                server_groups::spec_groups_stale_generation_fenced(ctx, #[trigger] tape.take(i)),
            ),
    ensures
        trial::judged(
            setting.faults,
            server_groups::spec_groups_stale_generation_fenced(ctx, tape),
        ),
{
    assert(trial::spares(setting.faults, Deed::Find));
    conformance::lemma_group_ranges(setting.schema);
    let join = setting.schema.join_group.max;
    let group = ctx.spec_check_group("fencing"@);
    lemma_coordinator_conn(setting, ctx, tape, worlds, 0, group);
    match group_flows::spec_coordinator_conn(ctx, tape, 0, group) {
        Ok((conn, at)) => {
            lemma_join_as_leader(setting, tape, worlds, at, conn, join, group, 140);
            match group_flows::spec_join_as_leader(tape, at, conn, join, group, 140) {
                Ok(((member_id, generation), joined)) => {
                    assert(seq![member_id][0] == member_id);
                    assert(seq![member_id].contains(member_id));
                    lemma_heartbeat(
                        setting,
                        tape,
                        worlds,
                        joined,
                        Label::Final("Heartbeat"@),
                        conn,
                        setting.schema.heartbeat.max,
                        group,
                        member_id,
                        generation.wrapping_sub(1),
                        142,
                    );
                },
                Err(_) => {},
            }
        },
        Err(_) => {},
    }
}

/// Syncing a group's one member.
pub proof fn lemma_sync_as_leader(
    setting: Setting,
    tape: Seq<Event>,
    worlds: Seq<World>,
    at: int,
    conn: usize,
    version: i16,
    group: Seq<char>,
    member_id: Seq<char>,
    generation: i32,
    correlation: i32,
)
    requires
        0 <= at <= tape.len(),
        conformance::is_modern(setting.schema),
        conformance::is_up(worlds[at].state),
        conformance::is_open(worlds[at], conn),
        setting.schema.sync_group.min <= version <= setting.schema.sync_group.max,
        has_member(worlds[at].state, group, member_id, generation),
        forall|i: int|
            at <= i < tape.len() ==> conformance::follows(
                setting,
                tape,
                worlds,
                i,
                group_flows::spec_sync_as_leader(
                    #[trigger] tape.take(i),
                    at,
                    conn,
                    version,
                    group,
                    member_id,
                    generation,
                    correlation,
                ),
            ),
    ensures
        match group_flows::spec_sync_as_leader(
            tape,
            at,
            conn,
            version,
            group,
            member_id,
            generation,
            correlation,
        ) {
            Ok((done, to)) => {
                &&& at <= to <= tape.len()
                &&& worlds[to].lines == worlds[at].lines
                &&& has_member(worlds[to].state, group, member_id, generation)
                &&& conformance::is_up(worlds[to].state)
                &&& forall|i: int|
                    to <= i <= tape.len() ==> group_flows::spec_sync_as_leader(
                        #[trigger] tape.take(i),
                        at,
                        conn,
                        version,
                        group,
                        member_id,
                        generation,
                        correlation,
                    )
                        == Ok::<((), int), HaltView>((done, to))
            },
            Err(HaltView::Ask(_)) => true,
            _ => false,
        },
{
    lemma_sync(
        setting,
        tape,
        worlds,
        at,
        Label::Final("SyncGroup"@),
        conn,
        version,
        correlation,
        group,
        generation,
        member_id,
        seq![0u8],
    );
}

/// A LeaveGroup request of a group's one member.
pub proof fn lemma_leave(
    setting: Setting,
    tape: Seq<Event>,
    worlds: Seq<World>,
    at: int,
    label: Label<Seq<char>>,
    conn: usize,
    version: i16,
    correlation: i32,
    group: Seq<char>,
    member_id: Seq<char>,
    generation: i32,
)
    requires
        0 <= at <= tape.len(),
        conformance::is_modern(setting.schema),
        conformance::is_up(worlds[at].state),
        conformance::is_open(worlds[at], conn),
        setting.schema.leave_group.min <= version <= setting.schema.leave_group.max,
        has_member(worlds[at].state, group, member_id, generation),
        forall|i: int|
            at <= i < tape.len() ==> conformance::follows(
                setting,
                tape,
                worlds,
                i,
                asks::spec_ask_code(
                    #[trigger] tape.take(i),
                    at,
                    label,
                    ActionOf::Call {
                        conn,
                        version,
                        correlation,
                        request: RequestOf::LeaveGroup { group, member_id },
                    },
                ),
            ),
    ensures
        match asks::spec_ask_code(
            tape,
            at,
            label,
            ActionOf::Call {
                conn,
                version,
                correlation,
                request: RequestOf::LeaveGroup { group, member_id },
            },
        ) {
            Ok((code, to)) => {
                &&& at <= to <= tape.len()
                &&& to == at + 1
                &&& worlds[to].lines == worlds[at].lines
                &&& code.ok()
                &&& conformance::is_up(worlds[to].state)
                &&& worlds[to].state.groups.contains_key(group)
                &&& if setting.faults.contains(Fault::LeaveGroupKeepsTheMember) {
                    has_member(worlds[to].state, group, member_id, generation)
                } else {
                    !worlds[to].state.groups[group].members.contains(member_id)
                }
                &&& forall|i: int|
                    to <= i <= tape.len() ==> asks::spec_ask_code(
                        #[trigger] tape.take(i),
                        at,
                        label,
                        ActionOf::Call {
                            conn,
                            version,
                            correlation,
                            request: RequestOf::LeaveGroup { group, member_id },
                        },
                    )
                        == Ok::<(ErrorCode, int), HaltView>((code, to))
            },
            Err(HaltView::Ask(_)) => true,
            _ => false,
        },
{
    conformance::lemma_group_ranges(setting.schema);
    if at < tape.len() {
        assert(tape.take(at).len() == at);
    }
    let request = RequestOf::LeaveGroup { group, member_id };
    conformance::lemma_call(setting, tape, worlds, at, label, conn, version, correlation, request);
    if at < tape.len() {
        let gone = seq![member_id];
        let staying = groups::staying(gone);
        let members = seq![member_id];
        assert(gone[0] == member_id);
        assert(gone.contains(member_id));
        if members.filter(staying).contains(member_id) {
            members.lemma_filter_contains_rev(staying, member_id);
            broadcast use vstd::seq_lib::group_filter_ensures;
            assert(staying(member_id));
        }
    }
}

/// Leaving a group, once synced: what the heartbeats round it are answered.
pub open spec fn left_after(
    schema: Schema,
    tape: Seq<Event>,
    at: int,
    conn: usize,
    group: Seq<char>,
    member_id: Seq<char>,
    generation: i32,
) -> FlowView<VerdictView> {
    match tape::spec_doing(
        group_flows::spec_heartbeat_code(
            tape,
            at,
            Label::Named("Heartbeat"@),
            conn,
            schema.heartbeat.max,
            group,
            member_id,
            generation,
            860,
        ),
        "Heartbeat (before leaving)"@,
    ) {
        Err(halt) => Err(halt),
        Ok((before, at)) => if !before.ok() {
            Err(
                tape::spec_fail(
                    "a heartbeat from a synced member answered "@ + before.shown@ + " before it left, so nothing after the leave would prove anything"@,
                    at,
                ),
            )
        } else {
            match tape::spec_doing(
                asks::spec_ask_code(
                    tape,
                    at,
                    Label::Final("LeaveGroup"@),
                    ActionOf::Call {
                        conn,
                        version: schema.leave_group.max,
                        correlation: 870,
                        request: RequestOf::LeaveGroup { group, member_id },
                    },
                ),
                "LeaveGroup"@,
            ) {
                Err(halt) => Err(halt),
                Ok((left, at)) => if !left.ok() {
                    Err(tape::spec_fail("leaving the group answered "@ + left.shown@, at))
                } else {
                    match tape::spec_doing(
                        group_flows::spec_heartbeat_code(
                            tape,
                            at,
                            Label::Named("Heartbeat"@),
                            conn,
                            schema.heartbeat.max,
                            group,
                            member_id,
                            generation,
                            880,
                        ),
                        "Heartbeat (after leaving)"@,
                    ) {
                        Err(halt) => Err(halt),
                        Ok((after, at)) => tape::spec_rule(
                            server_groups::spec_judge_departed(after, member_id),
                            at,
                        ),
                    }
                },
            }
        },
    }
}

#[verifier::rlimit(30)]
proof fn lemma_left(
    setting: Setting,
    tape: Seq<Event>,
    worlds: Seq<World>,
    at: int,
    conn: usize,
    group: Seq<char>,
    member_id: Seq<char>,
    generation: i32,
)
    requires
        trial::is_trial(ServerCheck::GroupsLeaveUnregistersTheMember, setting.faults),
        0 <= at <= tape.len(),
        conformance::is_modern(setting.schema),
        conformance::is_up(worlds[at].state),
        conformance::is_open(worlds[at], conn),
        has_member(worlds[at].state, group, member_id, generation),
        forall|i: int|
            at <= i < tape.len() ==> conformance::follows(
                setting,
                tape,
                worlds,
                i,
                left_after(
                    setting.schema,
                    #[trigger] tape.take(i),
                    at,
                    conn,
                    group,
                    member_id,
                    generation,
                ),
            ),
    ensures
        trial::judged(
            setting.faults,
            left_after(setting.schema, tape, at, conn, group, member_id, generation),
        ),
{
    let schema = setting.schema;
    let label = Label::Named("Heartbeat"@);
    conformance::lemma_group_ranges(schema);
    assert(seq![member_id][0] == member_id);
    assert(seq![member_id].contains(member_id));
    lemma_heartbeat(
        setting,
        tape,
        worlds,
        at,
        label,
        conn,
        schema.heartbeat.max,
        group,
        member_id,
        generation,
        860,
    );
    match group_flows::spec_heartbeat_code(
        tape,
        at,
        label,
        conn,
        schema.heartbeat.max,
        group,
        member_id,
        generation,
        860,
    ) {
        Ok((_, alive)) => {
            lemma_leave(
                setting,
                tape,
                worlds,
                alive,
                Label::Final("LeaveGroup"@),
                conn,
                schema.leave_group.max,
                870,
                group,
                member_id,
                generation,
            );
            match asks::spec_ask_code(
                tape,
                alive,
                Label::Final("LeaveGroup"@),
                ActionOf::Call {
                    conn,
                    version: schema.leave_group.max,
                    correlation: 870,
                    request: RequestOf::LeaveGroup { group, member_id },
                },
            ) {
                Ok((_, gone)) => {
                    lemma_heartbeat(
                        setting,
                        tape,
                        worlds,
                        gone,
                        label,
                        conn,
                        schema.heartbeat.max,
                        group,
                        member_id,
                        generation,
                        880,
                    );
                },
                Err(_) => {},
            }
        },
        Err(_) => {},
    }
}

pub proof fn lemma_groups_leave_unregisters_the_member(
    setting: Setting,
    ctx: ServerCtx,
    tape: Seq<Event>,
    worlds: Seq<World>,
)
    requires
        trial::is_trial(ServerCheck::GroupsLeaveUnregistersTheMember, setting.faults),
        conformance::is_set(setting, ctx, worlds[0].state),
        !worlds[0].state.groups.contains_key(ctx.spec_check_group("leaving"@)),
        forall|i: int|
            0 <= i < tape.len() ==> conformance::follows(
                setting,
                tape,
                worlds,
                i,
                server_groups::spec_groups_leave_unregisters_the_member(
                    ctx,
                    #[trigger] tape.take(i),
                ),
            ),
    ensures
        trial::judged(
            setting.faults,
            server_groups::spec_groups_leave_unregisters_the_member(ctx, tape),
        ),
{
    assert(trial::spares(setting.faults, Deed::Find));
    conformance::lemma_group_ranges(setting.schema);
    let schema = setting.schema;
    let group = ctx.spec_check_group("leaving"@);
    lemma_coordinator_conn(setting, ctx, tape, worlds, 0, group);
    match group_flows::spec_coordinator_conn(ctx, tape, 0, group) {
        Ok((conn, at)) => {
            lemma_join_as_leader(
                setting,
                tape,
                worlds,
                at,
                conn,
                schema.join_group.max,
                group,
                850,
            );
            match group_flows::spec_join_as_leader(
                tape,
                at,
                conn,
                schema.join_group.max,
                group,
                850,
            ) {
                Ok(((member_id, generation), joined)) => {
                    lemma_sync_as_leader(
                        setting,
                        tape,
                        worlds,
                        joined,
                        conn,
                        schema.sync_group.max,
                        group,
                        member_id,
                        generation,
                        855,
                    );
                    match group_flows::spec_sync_as_leader(
                        tape,
                        joined,
                        conn,
                        schema.sync_group.max,
                        group,
                        member_id,
                        generation,
                        855,
                    ) {
                        Ok((_, synced)) => {
                            lemma_left(
                                setting,
                                tape,
                                worlds,
                                synced,
                                conn,
                                group,
                                member_id,
                                generation,
                            );
                        },
                        Err(_) => {},
                    }
                },
                Err(_) => {},
            }
        },
        Err(_) => {},
    }
}

/// A DescribeGroups request on an open connection.
pub proof fn lemma_describe(
    setting: Setting,
    tape: Seq<Event>,
    worlds: Seq<World>,
    at: int,
    label: Label<Seq<char>>,
    conn: usize,
    version: i16,
    correlation: i32,
    group: Seq<char>,
)
    requires
        0 <= at <= tape.len(),
        conformance::is_modern(setting.schema),
        conformance::is_up(worlds[at].state),
        conformance::is_open(worlds[at], conn),
        setting.schema.describe_groups.min <= version <= setting.schema.describe_groups.max,
        forall|i: int|
            at <= i < tape.len() ==> conformance::follows(
                setting,
                tape,
                worlds,
                i,
                asks::spec_ask_describe_groups(
                    #[trigger] tape.take(i),
                    at,
                    label,
                    ActionOf::Call {
                        conn,
                        version,
                        correlation,
                        request: RequestOf::DescribeGroups { group },
                    },
                ),
            ),
    ensures
        match asks::spec_ask_describe_groups(
            tape,
            at,
            label,
            ActionOf::Call {
                conn,
                version,
                correlation,
                request: RequestOf::DescribeGroups { group },
            },
        ) {
            Ok((rows, to)) => {
                &&& at <= to <= tape.len()
                &&& to == at + 1
                &&& worlds[to].lines == worlds[at].lines
                &&& worlds[to].state == worlds[at].state
                &&& rows@.len() == 1
                &&& calibration_groups::shows_described(
                    rows@[0],
                    groups::spec_described(worlds[at].state, group, setting.faults),
                )
                &&& forall|i: int|
                    to <= i <= tape.len() ==> asks::spec_ask_describe_groups(
                        #[trigger] tape.take(i),
                        at,
                        label,
                        ActionOf::Call {
                            conn,
                            version,
                            correlation,
                            request: RequestOf::DescribeGroups { group },
                        },
                    )
                        == Ok::<(Vec<DescribedRow>, int), HaltView>((rows, to))
            },
            Err(HaltView::Ask(_)) => true,
            _ => false,
        },
{
    conformance::lemma_group_ranges(setting.schema);
    if at < tape.len() {
        assert(tape.take(at).len() == at);
    }
    let request = RequestOf::DescribeGroups { group };
    conformance::lemma_call(setting, tape, worlds, at, label, conn, version, correlation, request);
    match tape::spec_call(tape, at, label, ActionOf::Call { conn, version, correlation, request }) {
        Ok((Response::DescribeGroups(rows), _)) => {
            assert(rows@[0].group_id@ == rows@[0].group_id@);
        },
        _ => {},
    }
}

#[verifier::rlimit(30)]
pub proof fn lemma_describe_groups_reports_members(
    setting: Setting,
    ctx: ServerCtx,
    tape: Seq<Event>,
    worlds: Seq<World>,
)
    requires
        trial::is_trial(ServerCheck::DescribeGroupsReportsMembers, setting.faults),
        conformance::is_set(setting, ctx, worlds[0].state),
        !worlds[0].state.groups.contains_key(ctx.spec_check_group("described"@)),
        forall|i: int|
            0 <= i < tape.len() ==> conformance::follows(
                setting,
                tape,
                worlds,
                i,
                server_groups::spec_describe_groups_reports_members(ctx, #[trigger] tape.take(i)),
            ),
    ensures
        trial::judged(
            setting.faults,
            server_groups::spec_describe_groups_reports_members(ctx, tape),
        ),
{
    assert(trial::spares(setting.faults, Deed::Find));
    conformance::lemma_group_ranges(setting.schema);
    let schema = setting.schema;
    let group = ctx.spec_check_group("described"@);
    lemma_coordinator_conn(setting, ctx, tape, worlds, 0, group);
    match group_flows::spec_coordinator_conn(ctx, tape, 0, group) {
        Ok((conn, at)) => {
            lemma_join_as_leader(
                setting,
                tape,
                worlds,
                at,
                conn,
                schema.join_group.max,
                group,
                920,
            );
            match group_flows::spec_join_as_leader(
                tape,
                at,
                conn,
                schema.join_group.max,
                group,
                920,
            ) {
                Ok(((member_id, generation), joined)) => {
                    lemma_sync_as_leader(
                        setting,
                        tape,
                        worlds,
                        joined,
                        conn,
                        schema.sync_group.max,
                        group,
                        member_id,
                        generation,
                        930,
                    );
                    match group_flows::spec_sync_as_leader(
                        tape,
                        joined,
                        conn,
                        schema.sync_group.max,
                        group,
                        member_id,
                        generation,
                        930,
                    ) {
                        Ok((_, synced)) => {
                            let label = Label::Final("DescribeGroups"@);
                            lemma_describe(
                                setting,
                                tape,
                                worlds,
                                synced,
                                label,
                                conn,
                                schema.describe_groups.max,
                                940,
                                group,
                            );
                            match asks::spec_ask_describe_groups(
                                tape,
                                synced,
                                label,
                                ActionOf::Call {
                                    conn,
                                    version: schema.describe_groups.max,
                                    correlation: 940,
                                    request: RequestOf::DescribeGroups { group },
                                },
                            ) {
                                Ok((rows, _)) => {
                                    assert(seq![member_id][0] == member_id);
                                    assert(seq![member_id].contains(member_id));
                                    assert(setting.faults =~= calibration_state::only_if(
                                        Fault::DescribeGroupsHidesMembers,
                                        setting.faults.len() > 0,
                                    ));
                                    calibration_groups::law_described_members_are_calibrated(
                                        worlds[synced].state,
                                        group,
                                        member_id,
                                        rows@,
                                        setting.faults.len() > 0,
                                    );
                                },
                                Err(_) => {},
                            }
                        },
                        Err(_) => {},
                    }
                },
                Err(_) => {},
            }
        },
        Err(_) => {},
    }
}

} // verus!

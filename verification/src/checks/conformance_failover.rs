//! Runs of the checks that stop a broker.

use vstd::prelude::*;
use vstd::string::*;

use crate::checks::asks;
use crate::checks::batch;
use crate::checks::calibration;
use crate::checks::calibration_state;
use crate::checks::calibration_txn;
use crate::checks::conformance;
use crate::checks::conformance::{Setting, World};
use crate::checks::conformance_cluster;
use crate::checks::conformance_log;
use crate::checks::conformance_members;
use crate::checks::conformance_misplaced;
use crate::checks::conformance_txn;
use crate::checks::ctx;
use crate::checks::ctx::ServerCtx;
use crate::checks::find;
use crate::checks::flows;
use crate::checks::flows::{Addressing, ProducedView};
use crate::checks::group_flows;
use crate::checks::server::ServerCheck;
use crate::checks::server_cluster;
use crate::checks::server_cluster::NodeView;
use crate::checks::server_groups;
use crate::checks::tape;
use crate::checks::tape::{ActionOf, Event, FlowView, HaltView, Label};
use crate::checks::trial;
use crate::checks::trial::Deed;
use crate::checks::txn_flows;
use crate::subject::Fault;
use crate::subject::offsets;
use crate::subject::state;
use crate::subject::state::ClusterView;
use crate::subject::topics;
use crate::text;
use crate::wire;
use crate::wire::{PartitionRow, RequestOf};
use crate::VerdictView;

verus! {

/// Whether a flow comes to the verdict that it should, at a place that a
/// longer tape does not change.
pub open spec fn comes_to(
    setting: Setting,
    tape: Seq<Event>,
    at: int,
    flow: spec_fn(Seq<Event>) -> FlowView<VerdictView>,
) -> bool {
    match tape::spec_settle(flow(tape)) {
        Ok((verdict, to)) => {
            &&& at <= to <= tape.len()
            &&& trial::deserved(setting.faults.len() == 0, verdict)
            &&& forall|i: int|
                to <= i <= tape.len() ==> tape::spec_settle(flow(#[trigger] tape.take(i)))
                    == Ok::<(VerdictView, int), HaltView>((verdict, to))
        },
        Err(HaltView::Ask(_)) => true,
        _ => false,
    }
}

/// Starting the stopped broker again leaves the verdict as it is.
proof fn lemma_restart(
    setting: Setting,
    tape: Seq<Event>,
    worlds: Seq<World>,
    at: int,
    flow: spec_fn(Seq<Event>) -> FlowView<VerdictView>,
    node_id: i32,
    addr: Seq<char>,
)
    requires
        0 <= at <= tape.len(),
        comes_to(setting, tape, at, flow),
        forall|i: int|
            at <= i < tape.len() ==> conformance::follows(
                setting,
                tape,
                worlds,
                i,
                server_cluster::spec_restart(
                    tape.take(i),
                    flow(#[trigger] tape.take(i)),
                    node_id,
                    addr,
                ),
            ),
    ensures
        trial::judged(
            setting.faults,
            server_cluster::spec_restart(tape, flow(tape), node_id, addr),
        ),
{
    reveal(conformance::performs);
    match tape::spec_settle(flow(tape)) {
        Ok((verdict, to)) => {
            if to < tape.len() {
                assert(tape.take(to).len() == to);
                assert(tape::spec_settle(flow(tape.take(to))) == Ok::<
                    (VerdictView, int),
                    HaltView,
                >((verdict, to)));
            }
        },
        Err(_) => {},
    }
}

/// Stopping a broker takes it down, and its connections with it.
proof fn lemma_stop(
    setting: Setting,
    tape: Seq<Event>,
    worlds: Seq<World>,
    at: int,
    node_id: i32,
    addr: Seq<char>,
)
    requires
        0 <= at <= tape.len(),
        at < tape.len() ==> conformance::follows(
            setting,
            tape,
            worlds,
            at,
            server_cluster::spec_stop_broker(tape.take(at), at, node_id, addr),
        ),
    ensures
        match server_cluster::spec_stop_broker(tape, at, node_id, addr) {
            Ok((_, to)) => {
                &&& to == at + 1 <= tape.len()
                &&& worlds[to].state == state::spec_stop(worlds[at].state, node_id)
                &&& forall|i: int|
                    to <= i <= tape.len() ==> server_cluster::spec_stop_broker(
                        #[trigger] tape.take(i),
                        at,
                        node_id,
                        addr,
                    ) == Ok::<((), int), HaltView>(((), to))
            },
            Err(HaltView::Ask(_)) => at == tape.len(),
            _ => false,
        },
{
    reveal(conformance::performs);
    if at < tape.len() {
        assert(tape.take(at).len() == at);
    }
}

/// Some broker is live where one of several is stopped.
proof fn lemma_survives(state: ClusterView, node_id: i32, k: int)
    requires
        conformance::is_up(state),
        0 <= k < state.ports.len(),
        state::spec_node_at(k) != node_id,
    ensures
        ({
            let after = state::spec_stop(state, node_id);
            &&& conformance::is_placed(after)
            &&& after.live().len() > 0
            &&& after.node_ids() == state.node_ids()
            &&& !after.down.contains(state::spec_node_at(k))
        }),
{
    let after = state::spec_stop(state, node_id);
    let up = |id: i32| !after.down.contains(id);
    let ids = after.node_ids();
    assert(ids =~= state.node_ids());
    assert(up(ids[k]));
    ids.lemma_filter_contains(up, k);
}

/// Every broker holds a copy of a topic that is copied to each.
proof fn lemma_copied(leader: i32, nodes: Seq<i32>, k: int)
    requires
        0 <= k < nodes.len(),
    ensures
        topics::led_by(leader, nodes).contains(nodes[k]),
{
    let replicas = topics::led_by(leader, nodes);
    let others = topics::other_than(leader);
    assert(replicas[0] == leader);
    if nodes[k] != leader {
        assert(others(nodes[k]));
        nodes.lemma_filter_contains(others, k);
        let rest = nodes.filter(others);
        let j = choose|j: int| 0 <= j < rest.len() && rest[j] == nodes[k];
        assert(replicas[j + 1] == nodes[k]);
    }
}

/// Waiting for another leader: there is one at once, or there never is.
#[verifier::rlimit(60)]
proof fn lemma_await_failover(
    setting: Setting,
    ctx: ServerCtx,
    tape: Seq<Event>,
    worlds: Seq<World>,
    at: int,
    conn: usize,
    version: i16,
    topic: Seq<char>,
    leader: i32,
    replicas: Seq<i32>,
    attempt: int,
)
    requires
        trial::is_trial(ServerCheck::ClusterLeadershipMovesWhenABrokerStops, setting.faults),
        0 <= at <= tape.len(),
        0 <= attempt,
        setting.faults.len() == 0 ==> attempt < ctx.config.spec_recovery_attempts(),
        conformance::is_modern(setting.schema),
        conformance::is_served(worlds[at], conn),
        worlds[at].state.created.contains_key(topic),
        setting.schema.metadata.min <= version <= setting.schema.metadata.max,
        server_cluster::is_another(
            topics::reported_leader(
                worlds[at].state,
                topic,
                worlds[at].lines[conn as int].node_id,
                setting.faults,
            ),
            leader,
        ) <==> setting.faults.len() == 0,
        forall|i: int|
            at <= i < tape.len() ==> conformance::follows(
                setting,
                tape,
                worlds,
                i,
                server_cluster::spec_await_failover(
                    ctx,
                    #[trigger] tape.take(i),
                    at,
                    conn,
                    version,
                    topic,
                    leader,
                    replicas,
                    attempt,
                ),
            ),
    ensures
        match server_cluster::spec_await_failover(
            ctx,
            tape,
            at,
            conn,
            version,
            topic,
            leader,
            replicas,
            attempt,
        ) {
            Ok((new_leader, to)) => {
                &&& at <= to <= tape.len()
                &&& setting.faults.len() == 0
                &&& worlds[to] == worlds[at]
                &&& new_leader == topics::reported_leader(
                    worlds[at].state,
                    topic,
                    worlds[at].lines[conn as int].node_id,
                    setting.faults,
                )
                &&& forall|i: int|
                    to <= i <= tape.len() ==> server_cluster::spec_await_failover(
                        ctx,
                        #[trigger] tape.take(i),
                        at,
                        conn,
                        version,
                        topic,
                        leader,
                        replicas,
                        attempt,
                    ) == Ok::<(i32, int), HaltView>((new_leader, to))
            },
            Err(HaltView::Ask(_)) => true,
            Err(HaltView::Stop(verdict, to)) => {
                &&& at <= to <= tape.len()
                &&& setting.faults.len() > 0
                &&& verdict is Fail
                &&& forall|i: int|
                    to <= i <= tape.len() ==> server_cluster::spec_await_failover(
                        ctx,
                        #[trigger] tape.take(i),
                        at,
                        conn,
                        version,
                        topic,
                        leader,
                        replicas,
                        attempt,
                    ) == Err::<(i32, int), HaltView>(HaltView::Stop(verdict, to))
            },
            _ => false,
        },
    decreases ctx.config.spec_recovery_attempts() - attempt,
{
    if attempt < ctx.config.spec_recovery_attempts() {
        if at < tape.len() {
            assert(tape.take(at).len() == at);
        }
        conformance::lemma_pause_between(setting, tape, worlds, at, attempt);
        match tape::spec_pause_between(tape, at, attempt) {
            Ok((_, paused)) => {
                if paused < tape.len() {
                    assert(tape.take(paused).len() == paused);
                }
                conformance_cluster::lemma_leadership(
                    setting,
                    tape,
                    worlds,
                    paused,
                    conn,
                    version,
                    topic,
                    1_520,
                );
                match server_cluster::spec_leadership_at(
                    tape,
                    paused,
                    conn,
                    version,
                    topic,
                    1_520,
                ) {
                    Ok((_, seen)) => {
                        if setting.faults.len() > 0 {
                            lemma_await_failover(
                                setting,
                                ctx,
                                tape,
                                worlds,
                                seen,
                                conn,
                                version,
                                topic,
                                leader,
                                replicas,
                                attempt + 1,
                            );
                        }
                    },
                    Err(_) => {},
                }
            },
            Err(_) => {},
        }
    }
}

/// Waiting to write to the new leader: the first write is taken.
#[verifier::rlimit(40)]
proof fn lemma_await_writable(
    setting: Setting,
    ctx: ServerCtx,
    tape: Seq<Event>,
    worlds: Seq<World>,
    at: int,
    conn: usize,
    version: i16,
    topic: Seq<char>,
    leader: i32,
    new_leader: i32,
)
    requires
        setting.faults.len() == 0,
        0 <= at <= tape.len(),
        conformance::is_learned(setting, ctx),
        conformance::is_served(worlds[at], conn),
        worlds[at].lines[conn as int].node_id == worlds[at].state.placement(topic),
        setting.schema.produce.min <= version <= setting.schema.produce.max,
        topic.len() > 0,
        !worlds[at].state.logs.contains_key((topic, 0i32)),
        forall|i: int|
            at <= i < tape.len() ==> conformance::follows(
                setting,
                tape,
                worlds,
                i,
                server_cluster::spec_await_writable(
                    ctx,
                    #[trigger] tape.take(i),
                    at,
                    conn,
                    version,
                    topic,
                    leader,
                    new_leader,
                    0,
                    ctx.names.none@,
                ),
            ),
    ensures
        comes_to(
            setting,
            tape,
            at,
            |t: Seq<Event>|
                server_cluster::spec_await_writable(
                    ctx,
                    t,
                    at,
                    conn,
                    version,
                    topic,
                    leader,
                    new_leader,
                    0,
                    ctx.names.none@,
                ),
        ),
{
    let stamp = batch::spec_plain_stamp();
    assert(ctx.config.spec_recovery_attempts() >= 1);
    conformance_txn::lemma_produce_stamped(
        setting,
        tape,
        worlds,
        at,
        conn,
        version,
        stamp,
        topic,
        1_530,
    );
    match txn_flows::spec_produce_stamped(tape, at, conn, version, stamp, topic, 1_530) {
        Ok((row, to)) => {
            let records = choose|records: Seq<u8>| #[trigger]
                conformance_txn::took(
                    setting,
                    worlds[at].state,
                    worlds[to].state,
                    topic,
                    stamp,
                    row,
                    records,
                );
            conformance_log::lemma_first_write(setting, worlds[at].state, topic, records);
            assert(row.error.ok());
        },
        Err(_) => {},
    }
}

/// What is done while the leader is stopped.
#[verifier::rlimit(60)]
proof fn lemma_failover(
    setting: Setting,
    ctx: ServerCtx,
    tape: Seq<Event>,
    worlds: Seq<World>,
    at: int,
    before: ClusterView,
    survivor: int,
    metadata_version: i16,
    produce_version: i16,
    topic: Seq<char>,
    leader: i32,
    replicas: Seq<i32>,
)
    requires
        trial::is_trial(ServerCheck::ClusterLeadershipMovesWhenABrokerStops, setting.faults),
        0 <= at <= tape.len(),
        conformance::is_set(setting, ctx, before),
        before.ports.len() >= 2,
        leader == before.placement(topic),
        worlds[at].state == state::spec_stop(before, leader),
        0 <= survivor < before.ports.len(),
        state::spec_node_at(survivor) != leader,
        replicas == topics::led_by(leader, before.node_ids()),
        before.created.contains_key(topic),
        topic.len() > 0,
        !before.logs.contains_key((topic, 0i32)),
        setting.schema.metadata.min <= metadata_version <= setting.schema.metadata.max,
        setting.schema.produce.min <= produce_version <= setting.schema.produce.max,
        forall|i: int|
            at <= i < tape.len() ==> conformance::follows(
                setting,
                tape,
                worlds,
                i,
                server_cluster::spec_failover(
                    ctx,
                    #[trigger] tape.take(i),
                    at,
                    conformance_cluster::all_nodes(before)[survivor].addr,
                    metadata_version,
                    produce_version,
                    topic,
                    leader,
                    replicas,
                    conformance_cluster::all_nodes(before),
                ),
            ),
    ensures
        comes_to(
            setting,
            tape,
            at,
            |t: Seq<Event>|
                server_cluster::spec_failover(
                    ctx,
                    t,
                    at,
                    conformance_cluster::all_nodes(before)[survivor].addr,
                    metadata_version,
                    produce_version,
                    topic,
                    leader,
                    replicas,
                    conformance_cluster::all_nodes(before),
                ),
        ),
{
    let after = worlds[at].state;
    let nodes = conformance_cluster::all_nodes(before);
    let addr = nodes[survivor].addr;
    let stays = setting.faults.len() > 0;
    let fault = Fault::LeadershipStaysWithTheStoppedBroker;
    assert(setting.faults =~= calibration_state::only_if(fault, stays));
    assert(ctx.config.spec_recovery_attempts() >= 1);
    lemma_survives(before, leader, survivor);
    conformance_log::lemma_all_live(before);
    conformance_cluster::lemma_listens(after, survivor);
    if at < tape.len() {
        assert(tape.take(at).len() == at);
    }
    conformance::lemma_connect(setting, tape, worlds, at, addr);
    match tape::spec_connect(tape, at, addr) {
        Ok((conn, found)) => {
            let node_id = worlds[found].lines[conn as int].node_id;
            assert(conformance::listens(after, survivor, addr));
            calibration_txn::law_failover_is_calibrated(before, topic, node_id, stays);
            lemma_await_failover(
                setting,
                ctx,
                tape,
                worlds,
                found,
                conn,
                metadata_version,
                topic,
                leader,
                replicas,
                0,
            );
            match server_cluster::spec_await_failover(
                ctx,
                tape,
                found,
                conn,
                metadata_version,
                topic,
                leader,
                replicas,
                0,
            ) {
                Ok((new_leader, moved)) => {
                    let k = conformance_log::lemma_placed(after, topic);
                    assert(before.node_ids()[k] == new_leader);
                    lemma_copied(leader, before.node_ids(), k);
                    let wanted = server_cluster::with_id(new_leader);
                    calibration::lemma_first_where(nodes, wanted);
                    assert(wanted(nodes[k]));
                    let node = find::first_where(nodes, wanted)->Some_0;
                    let j = choose|j: int| 0 <= j < nodes.len() && nodes[j] == node;
                    conformance_cluster::lemma_listens(after, j);
                    if moved < tape.len() {
                        assert(tape.take(moved).len() == moved);
                    }
                    conformance::lemma_connect(setting, tape, worlds, moved, node.addr);
                    match tape::spec_connect(tape, moved, node.addr) {
                        Ok((taker, dialed)) => {
                            assert(conformance::listens(after, j, node.addr));
                            lemma_await_writable(
                                setting,
                                ctx,
                                tape,
                                worlds,
                                dialed,
                                taker,
                                produce_version,
                                topic,
                                leader,
                                new_leader,
                            );
                        },
                        Err(_) => {},
                    }
                },
                Err(_) => {},
            }
        },
        Err(_) => {},
    }
}

/// Creating a topic with a copy on every broker.
#[verifier::rlimit(40)]
proof fn lemma_replicated(
    setting: Setting,
    ctx: ServerCtx,
    tape: Seq<Event>,
    worlds: Seq<World>,
    at: int,
    conn: usize,
    topic: Seq<char>,
    replicas: i16,
    correlation: i32,
)
    requires
        trial::is_trial(ServerCheck::ClusterLeadershipMovesWhenABrokerStops, setting.faults),
        0 <= at <= tape.len(),
        conformance::is_set(setting, ctx, worlds[at].state),
        conformance::is_open(worlds[at], conn),
        conformance::is_free(worlds[at].state, topic),
        1 <= replicas == worlds[at].state.ports.len(),
        topic.len() > 0,
        forall|i: int|
            at <= i < tape.len() ==> conformance::follows(
                setting,
                tape,
                worlds,
                i,
                server_cluster::spec_create_replicated_topic(
                    ctx,
                    #[trigger] tape.take(i),
                    at,
                    conn,
                    topic,
                    replicas,
                    correlation,
                ),
            ),
    ensures
        match server_cluster::spec_create_replicated_topic(
            ctx,
            tape,
            at,
            conn,
            topic,
            replicas,
            correlation,
        ) {
            Ok((_, to)) => {
                &&& at <= to <= tape.len()
                &&& conformance::extends(worlds[at], worlds[to])
                &&& conformance_log::has_grown(worlds[at].state, worlds[to].state)
                &&& worlds[to].state.logs == worlds[at].state.logs
                &&& worlds[to].state.created.contains_key(topic)
                &&& conformance::is_set(setting, ctx, worlds[to].state)
                &&& forall|i: int|
                    to <= i <= tape.len() ==> server_cluster::spec_create_replicated_topic(
                        ctx,
                        #[trigger] tape.take(i),
                        at,
                        conn,
                        topic,
                        replicas,
                        correlation,
                    ) == Ok::<((), int), HaltView>(((), to))
            },
            Err(HaltView::Ask(_)) => true,
            _ => false,
        },
{
    assert(trial::spares(setting.faults, Deed::Cluster));
    conformance::lemma_ranges(setting.schema);
    let state = worlds[at].state;
    let version = setting.schema.create_topics.max;
    let before = correlation.wrapping_sub(1);
    assert(topics::broker_limit(state) == replicas);
    conformance::lemma_admin(setting, ctx, tape, worlds, at, conn, before);
    match flows::spec_admin_conn(ctx, tape, at, conn, before) {
        Ok((controller, found)) => {
            let label = Label::Final("CreateTopics"@);
            conformance::lemma_create(
                setting,
                tape,
                worlds,
                found,
                label,
                controller,
                version,
                correlation,
                topic,
                replicas,
                false,
            );
            match asks::spec_ask_create_topics(
                tape,
                found,
                label,
                ActionOf::Call {
                    conn: controller,
                    version,
                    correlation,
                    request: RequestOf::CreateTopics {
                        topic,
                        replication_factor: replicas,
                        validate_only: false,
                    },
                },
            ) {
                Ok((rows, created)) => {
                    conformance_log::lemma_still_set(setting, ctx, state, worlds[created].state);
                    assert(rows@[0].error.ok());
                },
                Err(_) => {},
            }
        },
        Err(_) => {},
    }
}

/// What the check on moving leadership does once its topic is named.
pub open spec fn moved_after(
    ctx: ServerCtx,
    tape: Seq<Event>,
    at: int,
    metadata_version: i16,
    produce_version: i16,
    topic: Seq<char>,
    wanted: i16,
    nodes: Seq<NodeView>,
) -> FlowView<VerdictView> {
    match tape::spec_connect(tape, at, ctx.addr@) {
        Err(halt) => Err(halt),
        Ok((bootstrap, at)) => match server_cluster::spec_create_replicated_topic(
            ctx,
            tape,
            at,
            bootstrap,
            topic,
            wanted,
            1_500,
        ) {
            Err(halt) => Err(halt),
            Ok((_, at)) => match server_cluster::spec_settle_leadership(
                ctx,
                tape,
                at,
                bootstrap,
                metadata_version,
                topic,
                1_510,
                0,
            ) {
                Err(halt) => Err(halt),
                Ok((row, at)) => stopped_after(
                    ctx,
                    tape,
                    at,
                    metadata_version,
                    produce_version,
                    topic,
                    row,
                    nodes,
                ),
            },
        },
    }
}

/// What it does once the topic's leader is known.
pub open spec fn stopped_after(
    ctx: ServerCtx,
    tape: Seq<Event>,
    at: int,
    metadata_version: i16,
    produce_version: i16,
    topic: Seq<char>,
    row: PartitionRow,
    nodes: Seq<NodeView>,
) -> FlowView<VerdictView> {
    let leader = row.leader_id;
    match find::first_where(nodes, server_cluster::with_id(leader)) {
        None => Err(
            tape::spec_fail(
                topic + "[0] is led by node "@ + text::dec(leader as int)
                    + ", which is not one of the brokers the same cluster reports"@,
                at,
            ),
        ),
        Some(stopping) => match find::first_where(nodes, server_cluster::without_id(leader)) {
            None => Err(
                tape::spec_skip(
                    "every broker is node "@ + text::dec(leader as int)
                        + ", so stopping it leaves nobody to ask"@,
                    at,
                ),
            ),
            Some(survivor) => match server_cluster::spec_stop_broker(
                tape,
                at,
                leader,
                stopping.addr,
            ) {
                Err(halt) => Err(halt),
                Ok((_, at)) => server_cluster::spec_restart(
                    tape,
                    server_cluster::spec_failover(
                        ctx,
                        tape,
                        at,
                        survivor.addr,
                        metadata_version,
                        produce_version,
                        topic,
                        leader,
                        row.replicas@,
                        nodes,
                    ),
                    leader,
                    stopping.addr,
                ),
            },
        },
    }
}

#[verifier::rlimit(60)]
proof fn lemma_stopped_after(
    setting: Setting,
    ctx: ServerCtx,
    tape: Seq<Event>,
    worlds: Seq<World>,
    at: int,
    metadata_version: i16,
    produce_version: i16,
    topic: Seq<char>,
    row: PartitionRow,
)
    requires
        trial::is_trial(ServerCheck::ClusterLeadershipMovesWhenABrokerStops, setting.faults),
        0 <= at <= tape.len(),
        conformance::is_set(setting, ctx, worlds[at].state),
        worlds[at].state.ports.len() >= 2,
        row.leader_id == worlds[at].state.placement(topic),
        row.replicas@ == topics::led_by(row.leader_id, worlds[at].state.node_ids()),
        worlds[at].state.created.contains_key(topic),
        topic.len() > 0,
        !worlds[at].state.logs.contains_key((topic, 0i32)),
        setting.schema.metadata.min <= metadata_version <= setting.schema.metadata.max,
        setting.schema.produce.min <= produce_version <= setting.schema.produce.max,
        forall|i: int|
            at <= i < tape.len() ==> conformance::follows(
                setting,
                tape,
                worlds,
                i,
                stopped_after(
                    ctx,
                    #[trigger] tape.take(i),
                    at,
                    metadata_version,
                    produce_version,
                    topic,
                    row,
                    conformance_cluster::all_nodes(worlds[at].state),
                ),
            ),
    ensures
        trial::judged(
            setting.faults,
            stopped_after(
                ctx,
                tape,
                at,
                metadata_version,
                produce_version,
                topic,
                row,
                conformance_cluster::all_nodes(worlds[at].state),
            ),
        ),
{
    let state = worlds[at].state;
    let nodes = conformance_cluster::all_nodes(state);
    let leader = row.leader_id;
    conformance_log::lemma_some_live(state);
    let home = conformance_log::lemma_placed(state, topic);
    let leading = server_cluster::with_id(leader);
    calibration::lemma_first_where(nodes, leading);
    assert(leading(nodes[home]));
    let stopping = find::first_where(nodes, leading)->Some_0;
    let k = conformance_misplaced::lemma_another(state, leader);
    let addr = nodes[k].addr;
    if at < tape.len() {
        assert(tape.take(at).len() == at);
    }
    lemma_stop(setting, tape, worlds, at, leader, stopping.addr);
    match server_cluster::spec_stop_broker(tape, at, leader, stopping.addr) {
        Ok((_, stopped)) => {
            let flow = |t: Seq<Event>|
                server_cluster::spec_failover(
                    ctx,
                    t,
                    stopped,
                    addr,
                    metadata_version,
                    produce_version,
                    topic,
                    leader,
                    row.replicas@,
                    nodes,
                );
            assert forall|i: int| stopped <= i < tape.len() implies conformance::follows(
                setting,
                tape,
                worlds,
                i,
                server_cluster::spec_restart(
                    tape.take(i),
                    flow(#[trigger] tape.take(i)),
                    leader,
                    stopping.addr,
                ),
            ) by {
                assert(stopped_after(
                    ctx,
                    tape.take(i),
                    at,
                    metadata_version,
                    produce_version,
                    topic,
                    row,
                    nodes,
                ) == server_cluster::spec_restart(
                    tape.take(i),
                    flow(tape.take(i)),
                    leader,
                    stopping.addr,
                ));
            }
            lemma_failover(
                setting,
                ctx,
                tape,
                worlds,
                stopped,
                state,
                k,
                metadata_version,
                produce_version,
                topic,
                leader,
                row.replicas@,
            );
            lemma_restart(setting, tape, worlds, stopped, flow, leader, stopping.addr);
        },
        Err(_) => {},
    }
}

#[verifier::rlimit(60)]
proof fn lemma_moved_after(
    setting: Setting,
    ctx: ServerCtx,
    tape: Seq<Event>,
    worlds: Seq<World>,
    at: int,
    metadata_version: i16,
    produce_version: i16,
    topic: Seq<char>,
    wanted: i16,
)
    requires
        trial::is_trial(ServerCheck::ClusterLeadershipMovesWhenABrokerStops, setting.faults),
        0 <= at <= tape.len(),
        conformance::is_set(setting, ctx, worlds[at].state),
        2 <= worlds[at].state.ports.len() == wanted,
        conformance::is_free(worlds[at].state, topic),
        topic.len() > 0,
        setting.schema.metadata.min <= metadata_version <= setting.schema.metadata.max,
        setting.schema.produce.min <= produce_version <= setting.schema.produce.max,
        forall|i: int|
            at <= i < tape.len() ==> conformance::follows(
                setting,
                tape,
                worlds,
                i,
                moved_after(
                    ctx,
                    #[trigger] tape.take(i),
                    at,
                    metadata_version,
                    produce_version,
                    topic,
                    wanted,
                    conformance_cluster::all_nodes(worlds[at].state),
                ),
            ),
    ensures
        trial::judged(
            setting.faults,
            moved_after(
                ctx,
                tape,
                at,
                metadata_version,
                produce_version,
                topic,
                wanted,
                conformance_cluster::all_nodes(worlds[at].state),
            ),
        ),
{
    let state = worlds[at].state;
    let nodes = conformance_cluster::all_nodes(state);
    let stays = setting.faults.len() > 0;
    let fault = Fault::LeadershipStaysWithTheStoppedBroker;
    assert(setting.faults =~= calibration_state::only_if(fault, stays));
    calibration_state::lemma_only_if(fault, stays, Fault::ReplicasCollapseToTheLeader);
    if at < tape.len() {
        assert(tape.take(at).len() == at);
    }
    conformance::lemma_connect(setting, tape, worlds, at, ctx.addr@);
    match tape::spec_connect(tape, at, ctx.addr@) {
        Ok((bootstrap, found)) => {
            lemma_replicated(
                setting,
                ctx,
                tape,
                worlds,
                found,
                bootstrap,
                topic,
                wanted,
                1_500,
            );
            match server_cluster::spec_create_replicated_topic(
                ctx,
                tape,
                found,
                bootstrap,
                topic,
                wanted,
                1_500,
            ) {
                Ok((_, created)) => {
                    let after = worlds[created].state;
                    let correlation = ctx::spec_correlation(1_510, 0);
                    assert(conformance_cluster::all_nodes(after) =~= nodes);
                    conformance_log::lemma_all_live(after);
                    conformance_log::lemma_some_live(after);
                    let k = conformance_log::lemma_placed(after, topic);
                    if created < tape.len() {
                        assert(tape.take(created).len() == created);
                        assert(conformance::follows(
                            setting,
                            tape,
                            worlds,
                            created,
                            moved_after(
                                ctx,
                                tape.take(created),
                                at,
                                metadata_version,
                                produce_version,
                                topic,
                                wanted,
                                nodes,
                            ),
                        ));
                    }
                    conformance_cluster::lemma_leadership(
                        setting,
                        tape,
                        worlds,
                        created,
                        bootstrap,
                        metadata_version,
                        topic,
                        correlation,
                    );
                    conformance_cluster::lemma_described_at_once(
                        ctx,
                        tape,
                        created,
                        bootstrap,
                        metadata_version,
                        topic,
                        1_510,
                    );
                    match server_cluster::spec_leadership_at(
                        tape,
                        created,
                        bootstrap,
                        metadata_version,
                        topic,
                        correlation,
                    ) {
                        Ok((Some(row), seen)) => {
                            assert forall|i: int| seen <= i <= tape.len() implies moved_after(
                                ctx,
                                #[trigger] tape.take(i),
                                at,
                                metadata_version,
                                produce_version,
                                topic,
                                wanted,
                                nodes,
                            ) == stopped_after(
                                ctx,
                                tape.take(i),
                                seen,
                                metadata_version,
                                produce_version,
                                topic,
                                row,
                                nodes,
                            ) by {
                                conformance_cluster::lemma_described_at_once(
                                    ctx,
                                    tape.take(i),
                                    created,
                                    bootstrap,
                                    metadata_version,
                                    topic,
                                    1_510,
                                );
                            }
                            lemma_stopped_after(
                                setting,
                                ctx,
                                tape,
                                worlds,
                                seen,
                                metadata_version,
                                produce_version,
                                topic,
                                row,
                            );
                        },
                        _ => {},
                    }
                },
                Err(_) => {},
            }
        },
        Err(_) => {},
    }
}

#[verifier::rlimit(40)]
pub proof fn lemma_cluster_leadership_moves_when_a_broker_stops(
    setting: Setting,
    ctx: ServerCtx,
    tape: Seq<Event>,
    worlds: Seq<World>,
)
    requires
        trial::is_trial(ServerCheck::ClusterLeadershipMovesWhenABrokerStops, setting.faults),
        conformance::is_set(setting, ctx, worlds[0].state),
        worlds[0].state.ports.len() >= 2,
        ctx.config.control,
        forall|i: int|
            0 <= i < tape.len() ==> conformance::follows(
                setting,
                tape,
                worlds,
                i,
                server_cluster::spec_cluster_leadership_moves_when_a_broker_stops(
                    ctx,
                    #[trigger] tape.take(i),
                ),
            ),
    ensures
        trial::judged(
            setting.faults,
            server_cluster::spec_cluster_leadership_moves_when_a_broker_stops(ctx, tape),
        ),
{
    assert(trial::spares(setting.faults, Deed::Cluster));
    conformance::lemma_ranges(setting.schema);
    let newest = setting.schema.produce.max;
    conformance_cluster::lemma_cluster_nodes(setting, ctx, tape, worlds);
    match server_cluster::spec_cluster_nodes(ctx, tape) {
        Ok((nodes, at)) => {
            let wanted = nodes.len() as i16;
            conformance::lemma_fresh_topic(setting, ctx, tape, worlds, at, "failover"@);
            match ctx::spec_fresh_topic(ctx, tape, at, "failover"@) {
                Ok((topic, named)) => {
                    lemma_moved_after(
                        setting,
                        ctx,
                        tape,
                        worlds,
                        named,
                        setting.schema.metadata.max,
                        if newest <= flows::PRODUCE_NAME_MAX {
                            newest
                        } else {
                            flows::PRODUCE_NAME_MAX
                        },
                        topic,
                        wanted,
                    );
                },
                Err(_) => {},
            }
        },
        Err(_) => {},
    }
}

/// Where the group's offset is looked for: another broker coordinates it at
/// once.
#[verifier::rlimit(40)]
proof fn lemma_await_relocated(
    setting: Setting,
    ctx: ServerCtx,
    tape: Seq<Event>,
    worlds: Seq<World>,
    at: int,
    before: ClusterView,
    survivor: Seq<char>,
    group: Seq<char>,
    owner: i32,
)
    requires
        trial::is_trial(
            ServerCheck::ClusterCommittedOffsetsOutliveTheCoordinator,
            setting.faults,
        ),
        0 <= at <= tape.len(),
        conformance::is_set(setting, ctx, before),
        worlds[at].state == state::spec_stop(before, owner),
        1 <= owner <= before.ports.len(),
        conformance::is_placed(worlds[at].state),
        worlds[at].state.live().len() > 0,
        conformance::is_heard(worlds[at].state, survivor),
        forall|i: int|
            at <= i < tape.len() ==> conformance::follows(
                setting,
                tape,
                worlds,
                i,
                server_cluster::spec_await_relocated(
                    ctx,
                    #[trigger] tape.take(i),
                    at,
                    survivor,
                    group,
                    conformance::address_of(before.port_of(owner)),
                    owner,
                    0,
                ),
            ),
    ensures
        match server_cluster::spec_await_relocated(
            ctx,
            tape,
            at,
            survivor,
            group,
            conformance::address_of(before.port_of(owner)),
            owner,
            0,
        ) {
            Ok((addr, to)) => {
                &&& at <= to <= tape.len()
                &&& worlds[to].state == worlds[at].state
                &&& conformance::extends(worlds[at], worlds[to])
                &&& conformance::is_heard(worlds[at].state, addr)
                &&& forall|i: int|
                    to <= i <= tape.len() ==> server_cluster::spec_await_relocated(
                        ctx,
                        #[trigger] tape.take(i),
                        at,
                        survivor,
                        group,
                        conformance::address_of(before.port_of(owner)),
                        owner,
                        0,
                    ) == Ok::<(Seq<char>, int), HaltView>((addr, to))
            },
            Err(HaltView::Ask(_)) => true,
            _ => false,
        },
{
    let after = worlds[at].state;
    let k = conformance_log::lemma_placed(after, group);
    let coordinator = conformance::address_of(before.port_of(owner));
    let place = conformance::address_of(after.port_of(after.placement(group)));
    assert(ctx.config.spec_recovery_attempts() >= 1);
    conformance_cluster::lemma_listens(after, k);
    conformance_cluster::lemma_listens(before, k);
    conformance_cluster::lemma_listens(before, owner - 1);
    if place == coordinator {
        conformance::lemma_own_address(before, place, k, owner - 1);
    }
    conformance_cluster::lemma_owner_named(setting, ctx, tape, worlds, at, survivor, group);
}

/// Waiting for the committed offset: it is there at once, or it never is.
#[verifier::rlimit(60)]
proof fn lemma_await_offset(
    setting: Setting,
    ctx: ServerCtx,
    tape: Seq<Event>,
    worlds: Seq<World>,
    at: int,
    conn: usize,
    version: i16,
    group: Seq<char>,
    produced: ProducedView,
    owner: i32,
    addr: Seq<char>,
    attempt: int,
    last: Seq<char>,
)
    requires
        0 <= at <= tape.len(),
        0 <= attempt,
        setting.faults.len() == 0 ==> attempt < ctx.config.spec_recovery_attempts(),
        conformance::is_modern(setting.schema),
        conformance::is_served(worlds[at], conn),
        setting.schema.offset_fetch.min <= version <= setting.schema.offset_fetch.max,
        conformance_members::is_known(worlds[at].state, produced),
        offsets::spec_lookup(
            worlds[at].state,
            group,
            produced.topic,
            0,
            setting.faults,
        ).offset == server_cluster::DURABLE <==> setting.faults.len() == 0,
        forall|i: int|
            at <= i < tape.len() ==> conformance::follows(
                setting,
                tape,
                worlds,
                i,
                server_cluster::spec_await_offset(
                    ctx,
                    #[trigger] tape.take(i),
                    at,
                    conn,
                    version,
                    group,
                    produced.topic,
                    produced.topic_id,
                    owner,
                    addr,
                    attempt,
                    last,
                ),
            ),
    ensures
        comes_to(
            setting,
            tape,
            at,
            |t: Seq<Event>|
                server_cluster::spec_await_offset(
                    ctx,
                    t,
                    at,
                    conn,
                    version,
                    group,
                    produced.topic,
                    produced.topic_id,
                    owner,
                    addr,
                    attempt,
                    last,
                ),
        ),
    decreases ctx.config.spec_recovery_attempts() - attempt,
{
    if attempt < ctx.config.spec_recovery_attempts() {
        if at < tape.len() {
            assert(tape.take(at).len() == at);
        }
        conformance::lemma_pause_between(setting, tape, worlds, at, attempt);
        match tape::spec_pause_between(tape, at, attempt) {
            Ok((_, paused)) => {
                conformance_members::lemma_fetch_committed(
                    setting,
                    tape,
                    worlds,
                    paused,
                    conn,
                    version,
                    group,
                    1_550,
                    produced,
                );
                match group_flows::spec_fetch_committed(
                    tape,
                    paused,
                    conn,
                    version,
                    group,
                    produced.topic,
                    produced.topic_id,
                    1_550,
                ) {
                    Ok((got, told)) => {
                        if setting.faults.len() > 0 {
                            lemma_await_offset(
                                setting,
                                ctx,
                                tape,
                                worlds,
                                told,
                                conn,
                                version,
                                group,
                                produced,
                                owner,
                                addr,
                                attempt + 1,
                                "reports "@ + text::dec(got as int),
                            );
                        }
                    },
                    Err(_) => {},
                }
            },
            Err(_) => {},
        }
    }
}

/// What is done while the coordinator is stopped.
#[verifier::rlimit(60)]
proof fn lemma_resume(
    setting: Setting,
    ctx: ServerCtx,
    tape: Seq<Event>,
    worlds: Seq<World>,
    at: int,
    before: ClusterView,
    survivor: int,
    version: i16,
    group: Seq<char>,
    produced: ProducedView,
    owner: i32,
)
    requires
        trial::is_trial(
            ServerCheck::ClusterCommittedOffsetsOutliveTheCoordinator,
            setting.faults,
        ),
        before.faults == setting.faults,
        0 <= at <= tape.len(),
        conformance::is_set(setting, ctx, before),
        before.ports.len() >= 2,
        owner == before.placement(group),
        worlds[at].state == state::spec_stop(before, owner),
        0 <= survivor < before.ports.len(),
        state::spec_node_at(survivor) != owner,
        conformance_members::is_known(before, produced),
        before.committed.contains_key((group, produced.topic, 0i32)),
        before.committed[(group, produced.topic, 0i32)].offset == server_cluster::DURABLE,
        setting.schema.offset_fetch.min <= version <= setting.schema.offset_fetch.max,
        forall|i: int|
            at <= i < tape.len() ==> conformance::follows(
                setting,
                tape,
                worlds,
                i,
                server_cluster::spec_resume(
                    ctx,
                    #[trigger] tape.take(i),
                    at,
                    conformance_cluster::all_nodes(before)[survivor].addr,
                    version,
                    group,
                    conformance::address_of(before.port_of(owner)),
                    produced,
                    owner,
                ),
            ),
    ensures
        comes_to(
            setting,
            tape,
            at,
            |t: Seq<Event>|
                server_cluster::spec_resume(
                    ctx,
                    t,
                    at,
                    conformance_cluster::all_nodes(before)[survivor].addr,
                    version,
                    group,
                    conformance::address_of(before.port_of(owner)),
                    produced,
                    owner,
                ),
        ),
{
    let after = worlds[at].state;
    let addr = conformance_cluster::all_nodes(before)[survivor].addr;
    let coordinator = conformance::address_of(before.port_of(owner));
    let dies = setting.faults.len() > 0;
    let fault = Fault::OffsetsDieWithTheirCoordinator;
    assert(setting.faults =~= calibration_state::only_if(fault, dies));
    assert(ctx.config.spec_recovery_attempts() >= 1);
    conformance_log::lemma_all_live(before);
    conformance_log::lemma_some_live(before);
    let home = conformance_log::lemma_placed(before, group);
    lemma_survives(before, owner, survivor);
    calibration_txn::law_durable_offset_is_calibrated(before, group, produced.topic, 0, dies);
    conformance_cluster::lemma_listens(after, survivor);
    if at < tape.len() {
        assert(tape.take(at).len() == at);
    }
    conformance::lemma_connect(setting, tape, worlds, at, addr);
    match tape::spec_connect(tape, at, addr) {
        Ok((conn, found)) => {
            lemma_await_relocated(
                setting,
                ctx,
                tape,
                worlds,
                found,
                before,
                addr,
                group,
                owner,
            );
            match server_cluster::spec_await_relocated(
                ctx,
                tape,
                found,
                addr,
                group,
                coordinator,
                owner,
                0,
            ) {
                Ok((place, moved)) => {
                    if moved < tape.len() {
                        assert(tape.take(moved).len() == moved);
                    }
                    conformance::lemma_connect(setting, tape, worlds, moved, place);
                    match tape::spec_connect(tape, moved, place) {
                        Ok((other, dialed)) => {
                            let k = choose|k: int| conformance::listens(after, k, place);
                            assert(conformance::listens(after, k, place));
                            lemma_await_offset(
                                setting,
                                ctx,
                                tape,
                                worlds,
                                dialed,
                                other,
                                version,
                                group,
                                produced,
                                owner,
                                place,
                                0,
                                "says nothing about it"@,
                            );
                        },
                        Err(_) => {},
                    }
                },
                Err(_) => {},
            }
        },
        Err(_) => {},
    }
}

/// What the check on committed offsets does once the coordinator is named.
pub open spec fn kept_after(
    ctx: ServerCtx,
    tape: Seq<Event>,
    at: int,
    versions: (i16, i16),
    group: Seq<char>,
    produced: ProducedView,
    coordinator: Seq<char>,
    nodes: Seq<NodeView>,
) -> FlowView<VerdictView> {
    match find::first_where(nodes, server_cluster::placed_at(coordinator)) {
        None => Err(
            tape::spec_skip(
                "the coordinator for "@ + group + " is at "@ + coordinator
                    + ", which is not one of the brokers Metadata reports, so there is no node to stop"@,
                at,
            ),
        ),
        Some(owner) => match find::first_where(
            nodes,
            server_cluster::without_id(owner.node_id),
        ) {
            None => Err(
                tape::spec_skip(
                    "the coordinator is the only broker, so stopping it leaves nobody to ask"@,
                    at,
                ),
            ),
            Some(survivor) => match tape::spec_connect(tape, at, coordinator) {
                Err(halt) => Err(halt),
                Ok((conn, at)) => match group_flows::spec_await_topic_known(
                    ctx,
                    tape,
                    at,
                    conn,
                    produced.topic,
                    1_540,
                ) {
                    Err(halt) => Err(halt),
                    Ok((_, at)) => match tape::spec_doing(
                        group_flows::spec_commit_offset(
                            tape,
                            at,
                            conn,
                            versions.0,
                            group,
                            produced.topic,
                            produced.topic_id,
                            server_cluster::DURABLE,
                            1_545,
                        ),
                        "OffsetCommit"@,
                    ) {
                        Err(halt) => Err(halt),
                        Ok((_, at)) => resumed_after(
                            ctx,
                            tape,
                            at,
                            versions.1,
                            group,
                            produced,
                            coordinator,
                            owner.node_id,
                            survivor.addr,
                        ),
                    },
                },
            },
        },
    }
}

/// What it does once the offset is committed.
pub open spec fn resumed_after(
    ctx: ServerCtx,
    tape: Seq<Event>,
    at: int,
    version: i16,
    group: Seq<char>,
    produced: ProducedView,
    coordinator: Seq<char>,
    owner: i32,
    survivor: Seq<char>,
) -> FlowView<VerdictView> {
    match server_cluster::spec_stop_broker(tape, at, owner, coordinator) {
        Err(halt) => Err(halt),
        Ok((_, at)) => server_cluster::spec_restart(
            tape,
            server_cluster::spec_resume(
                ctx,
                tape,
                at,
                survivor,
                version,
                group,
                coordinator,
                produced,
                owner,
            ),
            owner,
            coordinator,
        ),
    }
}

#[verifier::rlimit(60)]
proof fn lemma_resumed_after(
    setting: Setting,
    ctx: ServerCtx,
    tape: Seq<Event>,
    worlds: Seq<World>,
    at: int,
    version: i16,
    group: Seq<char>,
    produced: ProducedView,
    owner: i32,
    survivor: int,
)
    requires
        trial::is_trial(
            ServerCheck::ClusterCommittedOffsetsOutliveTheCoordinator,
            setting.faults,
        ),
        worlds[at].state.faults == setting.faults,
        0 <= at <= tape.len(),
        conformance::is_set(setting, ctx, worlds[at].state),
        worlds[at].state.ports.len() >= 2,
        owner == worlds[at].state.placement(group),
        0 <= survivor < worlds[at].state.ports.len(),
        state::spec_node_at(survivor) != owner,
        conformance_members::is_known(worlds[at].state, produced),
        worlds[at].state.committed.contains_key((group, produced.topic, 0i32)),
        worlds[at].state.committed[(group, produced.topic, 0i32)].offset
            == server_cluster::DURABLE,
        setting.schema.offset_fetch.min <= version <= setting.schema.offset_fetch.max,
        forall|i: int|
            at <= i < tape.len() ==> conformance::follows(
                setting,
                tape,
                worlds,
                i,
                resumed_after(
                    ctx,
                    #[trigger] tape.take(i),
                    at,
                    version,
                    group,
                    produced,
                    conformance::address_of(worlds[at].state.port_of(owner)),
                    owner,
                    conformance_cluster::all_nodes(worlds[at].state)[survivor].addr,
                ),
            ),
    ensures
        trial::judged(
            setting.faults,
            resumed_after(
                ctx,
                tape,
                at,
                version,
                group,
                produced,
                conformance::address_of(worlds[at].state.port_of(owner)),
                owner,
                conformance_cluster::all_nodes(worlds[at].state)[survivor].addr,
            ),
        ),
{
    let state = worlds[at].state;
    let coordinator = conformance::address_of(state.port_of(owner));
    let addr = conformance_cluster::all_nodes(state)[survivor].addr;
    if at < tape.len() {
        assert(tape.take(at).len() == at);
    }
    lemma_stop(setting, tape, worlds, at, owner, coordinator);
    match server_cluster::spec_stop_broker(tape, at, owner, coordinator) {
        Ok((_, stopped)) => {
            let flow = |t: Seq<Event>|
                server_cluster::spec_resume(
                    ctx,
                    t,
                    stopped,
                    addr,
                    version,
                    group,
                    coordinator,
                    produced,
                    owner,
                );
            assert forall|i: int| stopped <= i < tape.len() implies conformance::follows(
                setting,
                tape,
                worlds,
                i,
                server_cluster::spec_restart(
                    tape.take(i),
                    flow(#[trigger] tape.take(i)),
                    owner,
                    coordinator,
                ),
            ) by {
                assert(resumed_after(
                    ctx,
                    tape.take(i),
                    at,
                    version,
                    group,
                    produced,
                    coordinator,
                    owner,
                    addr,
                ) == server_cluster::spec_restart(
                    tape.take(i),
                    flow(tape.take(i)),
                    owner,
                    coordinator,
                ));
            }
            lemma_resume(
                setting,
                ctx,
                tape,
                worlds,
                stopped,
                state,
                survivor,
                version,
                group,
                produced,
                owner,
            );
            lemma_restart(setting, tape, worlds, stopped, flow, owner, coordinator);
        },
        Err(_) => {},
    }
}

#[verifier::rlimit(60)]
proof fn lemma_kept_after(
    setting: Setting,
    ctx: ServerCtx,
    tape: Seq<Event>,
    worlds: Seq<World>,
    at: int,
    versions: (i16, i16),
    group: Seq<char>,
    produced: ProducedView,
)
    requires
        trial::is_trial(
            ServerCheck::ClusterCommittedOffsetsOutliveTheCoordinator,
            setting.faults,
        ),
        worlds[at].state.faults == setting.faults,
        0 <= at <= tape.len(),
        conformance::is_set(setting, ctx, worlds[at].state),
        worlds[at].state.ports.len() >= 2,
        worlds[at].state.created.contains_key(produced.topic),
        conformance_members::is_known(worlds[at].state, produced),
        setting.schema.offset_commit.min <= versions.0 <= setting.schema.offset_commit.max,
        setting.schema.offset_fetch.min <= versions.1 <= setting.schema.offset_fetch.max,
        forall|i: int|
            at <= i < tape.len() ==> conformance::follows(
                setting,
                tape,
                worlds,
                i,
                kept_after(
                    ctx,
                    #[trigger] tape.take(i),
                    at,
                    versions,
                    group,
                    produced,
                    conformance::address_of(
                        worlds[at].state.port_of(worlds[at].state.placement(group)),
                    ),
                    conformance_cluster::all_nodes(worlds[at].state),
                ),
            ),
    ensures
        trial::judged(
            setting.faults,
            kept_after(
                ctx,
                tape,
                at,
                versions,
                group,
                produced,
                conformance::address_of(
                    worlds[at].state.port_of(worlds[at].state.placement(group)),
                ),
                conformance_cluster::all_nodes(worlds[at].state),
            ),
        ),
{
    assert(trial::spares(setting.faults, Deed::Cluster));
    let state = worlds[at].state;
    let nodes = conformance_cluster::all_nodes(state);
    let owner = state.placement(group);
    let coordinator = conformance::address_of(state.port_of(owner));
    conformance_log::lemma_some_live(state);
    let home = conformance_log::lemma_placed(state, group);
    conformance_cluster::lemma_listens(state, home);
    let placed = server_cluster::placed_at(coordinator);
    calibration::lemma_first_where(nodes, placed);
    assert(placed(nodes[home]));
    let found_owner = find::first_where(nodes, placed)->Some_0;
    let j = choose|j: int| 0 <= j < nodes.len() && nodes[j] == found_owner;
    conformance_cluster::lemma_listens(state, j);
    conformance::lemma_own_address(state, coordinator, j, home);
    let k = conformance_misplaced::lemma_another(state, owner);
    if at < tape.len() {
        assert(tape.take(at).len() == at);
    }
    conformance::lemma_connect(setting, tape, worlds, at, coordinator);
    match tape::spec_connect(tape, at, coordinator) {
        Ok((conn, dialed)) => {
            conformance_members::lemma_await_topic(
                setting,
                ctx,
                tape,
                worlds,
                dialed,
                conn,
                produced.topic,
                1_540,
            );
            match group_flows::spec_await_topic_known(
                ctx,
                tape,
                dialed,
                conn,
                produced.topic,
                1_540,
            ) {
                Ok((_, known)) => {
                    conformance_members::lemma_commit_offset(
                        setting,
                        tape,
                        worlds,
                        known,
                        conn,
                        versions.0,
                        group,
                        server_cluster::DURABLE,
                        1_545,
                        produced,
                    );
                    match group_flows::spec_commit_offset(
                        tape,
                        known,
                        conn,
                        versions.0,
                        group,
                        produced.topic,
                        produced.topic_id,
                        server_cluster::DURABLE,
                        1_545,
                    ) {
                        Ok((_, told)) => {
                            let after = worlds[told].state;
                            conformance_log::lemma_still_set(setting, ctx, state, after);
                            conformance_log::lemma_same_placement(state, after, group);
                            assert(conformance_cluster::all_nodes(after) =~= nodes);
                            lemma_resumed_after(
                                setting,
                                ctx,
                                tape,
                                worlds,
                                told,
                                versions.1,
                                group,
                                produced,
                                owner,
                                k,
                            );
                        },
                        Err(_) => {},
                    }
                },
                Err(_) => {},
            }
        },
        Err(_) => {},
    }
}

/// What it does once the topic is written to.
pub open spec fn coordinated_after(
    ctx: ServerCtx,
    tape: Seq<Event>,
    at: int,
    versions: (i16, i16),
    group: Seq<char>,
    produced: ProducedView,
    nodes: Seq<NodeView>,
) -> FlowView<VerdictView> {
    match group_flows::spec_await_coordinator_at(ctx, tape, at, ctx.addr@, group) {
        Err(halt) => Err(halt),
        Ok((place, at)) => match place {
            None => Err(
                tape::spec_skip("the subject named no coordinator for "@ + group, at),
            ),
            Some(coordinator) => kept_after(
                ctx,
                tape,
                at,
                versions,
                group,
                produced,
                coordinator,
                nodes,
            ),
        },
    }
}

#[verifier::rlimit(40)]
proof fn lemma_coordinated_after(
    setting: Setting,
    ctx: ServerCtx,
    tape: Seq<Event>,
    worlds: Seq<World>,
    at: int,
    versions: (i16, i16),
    group: Seq<char>,
    produced: ProducedView,
)
    requires
        trial::is_trial(
            ServerCheck::ClusterCommittedOffsetsOutliveTheCoordinator,
            setting.faults,
        ),
        worlds[at].state.faults == setting.faults,
        0 <= at <= tape.len(),
        conformance::is_set(setting, ctx, worlds[at].state),
        worlds[at].state.ports.len() >= 2,
        worlds[at].state.created.contains_key(produced.topic),
        conformance_members::is_known(worlds[at].state, produced),
        setting.schema.offset_commit.min <= versions.0 <= setting.schema.offset_commit.max,
        setting.schema.offset_fetch.min <= versions.1 <= setting.schema.offset_fetch.max,
        forall|i: int|
            at <= i < tape.len() ==> conformance::follows(
                setting,
                tape,
                worlds,
                i,
                coordinated_after(
                    ctx,
                    #[trigger] tape.take(i),
                    at,
                    versions,
                    group,
                    produced,
                    conformance_cluster::all_nodes(worlds[at].state),
                ),
            ),
    ensures
        trial::judged(
            setting.faults,
            coordinated_after(
                ctx,
                tape,
                at,
                versions,
                group,
                produced,
                conformance_cluster::all_nodes(worlds[at].state),
            ),
        ),
{
    conformance_log::lemma_some_live(worlds[at].state);
    conformance_cluster::lemma_owner_named(setting, ctx, tape, worlds, at, ctx.addr@, group);
    match group_flows::spec_await_coordinator_at(ctx, tape, at, ctx.addr@, group) {
        Ok((_, named)) => {
            lemma_kept_after(
                setting,
                ctx,
                tape,
                worlds,
                named,
                versions,
                group,
                produced,
            );
        },
        Err(_) => {},
    }
}

#[verifier::rlimit(60)]
pub proof fn lemma_cluster_committed_offsets_outlive_the_coordinator(
    setting: Setting,
    ctx: ServerCtx,
    tape: Seq<Event>,
    worlds: Seq<World>,
)
    requires
        trial::is_trial(
            ServerCheck::ClusterCommittedOffsetsOutliveTheCoordinator,
            setting.faults,
        ),
        worlds[0].state.faults == setting.faults,
        conformance::is_set(setting, ctx, worlds[0].state),
        worlds[0].state.ports.len() >= 2,
        ctx.config.control,
        forall|i: int|
            0 <= i < tape.len() ==> conformance::follows(
                setting,
                tape,
                worlds,
                i,
                server_cluster::spec_cluster_committed_offsets_outlive_the_coordinator(
                    ctx,
                    #[trigger] tape.take(i),
                ),
            ),
    ensures
        trial::judged(
            setting.faults,
            server_cluster::spec_cluster_committed_offsets_outlive_the_coordinator(ctx, tape),
        ),
{
    assert(trial::spares(setting.faults, Deed::Cluster));
    assert(trial::spares(setting.faults, Deed::Topic));
    assert(trial::spares(setting.faults, Deed::Write));
    conformance::lemma_group_ranges(setting.schema);
    conformance_cluster::lemma_cluster_nodes(setting, ctx, tape, worlds);
    let versions = (setting.schema.offset_commit.max, setting.schema.offset_fetch.max);
    let group = ctx.spec_check_group("coordloss"@);
    match server_cluster::spec_cluster_nodes(ctx, tape) {
        Ok((nodes, at)) => {
            assert(server_groups::spec_offsets_versions(ctx, at) == Ok::<(i16, i16), HaltView>(
                versions,
            ));
            conformance_log::lemma_produce_flow(
                setting,
                ctx,
                tape,
                worlds,
                at,
                "coordloss"@,
                Addressing::Name,
            );
            match flows::spec_produce_flow(ctx, tape, at, "coordloss"@, Addressing::Name) {
                Ok((produced, wrote)) => {
                    let state = worlds[wrote].state;
                    assert(conformance_cluster::all_nodes(state) =~= nodes);
                    lemma_coordinated_after(
                        setting,
                        ctx,
                        tape,
                        worlds,
                        wrote,
                        versions,
                        group,
                        produced,
                    );
                },
                Err(_) => {},
            }
        },
        Err(_) => {},
    }
}

} // verus!

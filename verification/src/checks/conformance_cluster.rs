//! Runs of the checks that ask several brokers.

use vstd::prelude::*;
use vstd::string::*;

use crate::checks::asks;
use crate::checks::calibration;
use crate::checks::calibration_state;
use crate::checks::conformance;
use crate::checks::conformance::{Setting, World};
use crate::checks::conformance_groups;
use crate::checks::conformance_log;
use crate::checks::conformance_members;
use crate::checks::conformance_strays;
use crate::checks::ctx;
use crate::checks::ctx::ServerCtx;
use crate::checks::find;
use crate::checks::flows;
use crate::checks::flows::Addressing;
use crate::checks::group_flows;
use crate::checks::server::ServerCheck;
use crate::checks::server_cluster;
use crate::checks::server_cluster::NodeView;
use crate::checks::tape;
use crate::checks::tape::{ActionOf, Event, HaltView, Label};
use crate::checks::trial;
use crate::checks::trial::Deed;
use crate::subject::Fault;
use crate::subject::offsets;
use crate::subject::requests::{MetadataAskView, NamedTopicView};
use crate::subject::state;
use crate::subject::state::ClusterView;
use crate::subject::topics;
use crate::text;
use crate::wire;
use crate::wire::{BrokerRow, FindCoordinatorAnswer, PartitionRow, RequestOf, Response};
use crate::VerdictView;

verus! {

/// Every broker of a cluster, and where it listens.
pub open spec fn all_nodes(state: ClusterView) -> Seq<NodeView> {
    Seq::new(
        state.ports.len(),
        |k: int|
            NodeView {
                node_id: state::spec_node_at(k),
                addr: conformance::address_of(state.ports[k]),
            },
    )
}

/// What a reader makes of the rows of a cluster's brokers.
proof fn lemma_nodes(state: ClusterView, brokers: Seq<BrokerRow>, n: int)
    requires
        conformance::is_placed(state),
        brokers.len() == state.ports.len(),
        forall|k: int|
            0 <= k < brokers.len() ==> (#[trigger] brokers[k]).node_id == state::spec_node_at(k)
                && brokers[k].host@ == "127.0.0.1"@ && brokers[k].port == state.ports[k],
        0 <= n <= brokers.len(),
    ensures
        server_cluster::nodes_in(brokers.take(n)) =~= all_nodes(state).take(n),
    decreases n,
{
    reveal_strlit("127.0.0.1");
    if n > 0 {
        lemma_nodes(state, brokers, n - 1);
        assert(brokers.take(n).drop_last() =~= brokers.take(n - 1));
        assert(brokers.take(n).last() == brokers[n - 1]);
        assert(1 <= state.ports[n - 1] <= 65535);
        assert(all_nodes(state).take(n) =~= all_nodes(state).take(n - 1).push(
            all_nodes(state)[n - 1],
        ));
    }
}

/// Asking a cluster for its brokers.
pub proof fn lemma_cluster_nodes(
    setting: Setting,
    ctx: ServerCtx,
    tape: Seq<Event>,
    worlds: Seq<World>,
)
    requires
        trial::spares(setting.faults, Deed::Cluster),
        conformance::is_set(setting, ctx, worlds[0].state),
        worlds[0].state.ports.len() >= 2,
        forall|i: int|
            0 <= i < tape.len() ==> conformance::follows(
                setting,
                tape,
                worlds,
                i,
                server_cluster::spec_cluster_nodes(ctx, #[trigger] tape.take(i)),
            ),
    ensures
        match server_cluster::spec_cluster_nodes(ctx, tape) {
            Ok((nodes, to)) => {
                &&& 0 <= to <= tape.len()
                &&& nodes == all_nodes(worlds[0].state)
                &&& worlds[to].state == worlds[0].state
                &&& forall|i: int|
                    to <= i <= tape.len() ==> server_cluster::spec_cluster_nodes(
                        ctx,
                        #[trigger] tape.take(i),
                    ) == Ok::<(Seq<NodeView>, int), HaltView>((nodes, to))
            },
            Err(HaltView::Ask(_)) => true,
            _ => false,
        },
{
    conformance::lemma_ranges(setting.schema);
    let version = setting.schema.metadata.max;
    let state = worlds[0].state;
    if 0 < tape.len() {
        assert(tape.take(0).len() == 0);
    }
    conformance::lemma_connect(setting, tape, worlds, 0, ctx.addr@);
    match tape::spec_connect(tape, 0, ctx.addr@) {
        Ok((conn, at)) => {
            if at < tape.len() {
                assert(tape.take(at).len() == at);
            }
            let label = Label::Final("Metadata"@);
            conformance::lemma_metadata(
                setting,
                tape,
                worlds,
                at,
                label,
                conn,
                version,
                None,
                1_400,
            );
            match asks::spec_ask_metadata(
                tape,
                at,
                label,
                ActionOf::Call {
                    conn,
                    version,
                    correlation: 1_400,
                    request: RequestOf::Metadata { topic: None },
                },
            ) {
                Ok((answer, _)) => {
                    let brokers = answer.brokers@;
                    lemma_nodes(state, brokers, brokers.len() as int);
                    assert(brokers.take(brokers.len() as int) =~= brokers);
                    assert(all_nodes(state).take(brokers.len() as int) =~= all_nodes(state));
                },
                Err(_) => {},
            }
        },
        Err(_) => {},
    }
}

/// Who is said to lead a topic, and who to hold copies of it, by a broker.
pub open spec fn places(
    setting: Setting,
    state: ClusterView,
    topic: Seq<char>,
    node_id: i32,
    row: PartitionRow,
) -> bool {
    let leader = topics::reported_leader(state, topic, node_id, setting.faults);
    let replicas = topics::reported_replicas(state, leader, setting.faults);
    &&& row.leader_id == leader
    &&& row.replicas@ == replicas
    &&& row.isr@ == replicas
}

/// Asking a broker who leads a topic that there is.
pub proof fn lemma_leadership(
    setting: Setting,
    tape: Seq<Event>,
    worlds: Seq<World>,
    at: int,
    conn: usize,
    version: i16,
    topic: Seq<char>,
    correlation: i32,
)
    requires
        !setting.faults.contains(Fault::MetadataNonFlexibleHeader),
        !setting.faults.contains(Fault::MetadataLeaderIsUnknown),
        0 <= at <= tape.len(),
        conformance::is_modern(setting.schema),
        conformance::is_served(worlds[at], conn),
        worlds[at].state.created.contains_key(topic),
        setting.schema.metadata.min <= version <= setting.schema.metadata.max,
        at < tape.len() ==> conformance::follows(
            setting,
            tape,
            worlds,
            at,
            server_cluster::spec_leadership_at(
                tape.take(at),
                at,
                conn,
                version,
                topic,
                correlation,
            ),
        ),
    ensures
        match server_cluster::spec_leadership_at(tape, at, conn, version, topic, correlation) {
            Ok((seen, to)) => {
                &&& to == at + 1 <= tape.len()
                &&& worlds[to] == worlds[at]
                &&& seen matches Some(row) && places(
                    setting,
                    worlds[at].state,
                    topic,
                    worlds[at].lines[conn as int].node_id,
                    row,
                )
                &&& forall|i: int|
                    to <= i <= tape.len() ==> server_cluster::spec_leadership_at(
                        #[trigger] tape.take(i),
                        at,
                        conn,
                        version,
                        topic,
                        correlation,
                    ) == Ok::<(Option<PartitionRow>, int), HaltView>((seen, to))
            },
            Err(HaltView::Ask(_)) => at == tape.len(),
            _ => false,
        },
{
    conformance::lemma_ranges(setting.schema);
    if at < tape.len() {
        assert(tape.take(at).len() == at);
    }
    conformance::lemma_metadata(
        setting,
        tape,
        worlds,
        at,
        Label::Named("Metadata"@),
        conn,
        version,
        Some(topic),
        correlation,
    );
    match flows::spec_metadata(tape, at, conn, version, Some(topic), correlation) {
        Ok((answer, _)) => {
            let state = worlds[at].state;
            let node_id = worlds[at].lines[conn as int].node_id;
            calibration::lemma_one_name(topic);
            let names = seq![topic];
            assert(names.drop_last() =~= Seq::empty());
            reveal_with_fuel(topics::answered_names, 2);
            let reply = topics::spec_metadata(
                state,
                MetadataAskView { topics: Some(seq![NamedTopicView { name: Some(topic) }]) },
                correlation,
                node_id,
                setting.faults,
            );
            assert(reply.topics =~= seq![
                topics::spec_topic(state, topic, correlation, node_id, setting.faults),
            ]);
            let entry = answer.topics@[0];
            assert(find::is_named(topic)(entry));
            assert(answer.topics@[0].partitions@[0].index == 0);
            assert(find::is_partition(0)(entry.partitions@[0]));
        },
        Err(_) => {},
    }
}

/// What the brokers up to one of them say of a topic's leader.
pub open spec fn led_to(setting: Setting, state: ClusterView, topic: Seq<char>, n: int) -> Seq<
    (i32, i32),
> {
    Seq::new(
        n as nat,
        |k: int|
            (
                state::spec_node_at(k),
                topics::reported_leader(state, topic, state::spec_node_at(k), setting.faults),
            ),
    )
}

/// A broker of a cluster that is up listens.
pub proof fn lemma_listens(state: ClusterView, k: int)
    requires
        0 <= k < state.ports.len(),
        !state.down.contains(state::spec_node_at(k)),
    ensures
        conformance::listens(state, k, conformance::address_of(state.ports[k])),
        conformance::is_heard(state, conformance::address_of(state.ports[k])),
{
    assert(conformance::listens(state, k, conformance::address_of(state.ports[k])));
}

/// Asking every broker who leads a topic, from one of them on.
#[verifier::rlimit(40)]
proof fn lemma_leader_answers(
    setting: Setting,
    ctx: ServerCtx,
    tape: Seq<Event>,
    worlds: Seq<World>,
    at: int,
    version: i16,
    topic: Seq<char>,
    n: int,
)
    requires
        trial::spares(setting.faults, Deed::Cluster),
        !setting.faults.contains(Fault::MetadataLeaderIsUnknown),
        0 <= at <= tape.len(),
        conformance::is_learned(setting, ctx),
        conformance::is_up(worlds[at].state),
        worlds[at].state.created.contains_key(topic),
        0 <= n <= worlds[at].state.ports.len(),
        setting.schema.metadata.min <= version <= setting.schema.metadata.max,
        forall|i: int|
            at <= i < tape.len() ==> conformance::follows(
                setting,
                tape,
                worlds,
                i,
                server_cluster::spec_leader_answers(
                    ctx,
                    #[trigger] tape.take(i),
                    at,
                    version,
                    topic,
                    all_nodes(worlds[at].state),
                    n,
                    led_to(setting, worlds[at].state, topic, n),
                ),
            ),
    ensures
        match server_cluster::spec_leader_answers(
            ctx,
            tape,
            at,
            version,
            topic,
            all_nodes(worlds[at].state),
            n,
            led_to(setting, worlds[at].state, topic, n),
        ) {
            Ok((answers, _)) => answers == led_to(
                setting,
                worlds[at].state,
                topic,
                worlds[at].state.ports.len() as int,
            ),
            Err(HaltView::Ask(_)) => true,
            _ => false,
        },
    decreases worlds[at].state.ports.len() - n,
{
    let state = worlds[at].state;
    let nodes = all_nodes(state);
    if n < nodes.len() {
        let answers = led_to(setting, state, topic, n);
        let addr = nodes[n].addr;
        lemma_listens(state, n);
        if at < tape.len() {
            assert(tape.take(at).len() == at);
        }
        conformance::lemma_connect(setting, tape, worlds, at, addr);
        match tape::spec_connect(tape, at, addr) {
            Ok((conn, found)) => {
                let base = ctx::spec_correlation(1_410, n);
                conformance_members::lemma_await_topic(
                    setting,
                    ctx,
                    tape,
                    worlds,
                    found,
                    conn,
                    topic,
                    base,
                );
                match group_flows::spec_await_topic_known(ctx, tape, found, conn, topic, base) {
                    Ok((_, known)) => {
                        let correlation = ctx::spec_correlation(1_510, n);
                        lemma_leadership(
                            setting,
                            tape,
                            worlds,
                            known,
                            conn,
                            version,
                            topic,
                            correlation,
                        );
                        match server_cluster::spec_leadership_at(
                            tape,
                            known,
                            conn,
                            version,
                            topic,
                            correlation,
                        ) {
                            Ok((Some(row), told)) => {
                                assert(led_to(setting, state, topic, n + 1) =~= answers.push(
                                    (nodes[n].node_id, row.leader_id),
                                ));
                                lemma_leader_answers(
                                    setting,
                                    ctx,
                                    tape,
                                    worlds,
                                    told,
                                    version,
                                    topic,
                                    n + 1,
                                );
                            },
                            _ => {},
                        }
                    },
                    Err(_) => {},
                }
            },
            Err(_) => {},
        }
    }
}

/// The node ids of a cluster are all different.
proof fn lemma_own_ids(state: ClusterView)
    requires
        conformance::is_placed(state),
    ensures
        find::all_different(state.node_ids()),
        forall|k: int| 0 <= k < state.ports.len() ==> #[trigger] state.node_ids()[k] == k + 1,
{
}

#[verifier::rlimit(40)]
pub proof fn lemma_cluster_brokers_agree_on_the_leader(
    setting: Setting,
    ctx: ServerCtx,
    tape: Seq<Event>,
    worlds: Seq<World>,
)
    requires
        trial::is_trial(ServerCheck::ClusterBrokersAgreeOnTheLeader, setting.faults),
        conformance::is_set(setting, ctx, worlds[0].state),
        worlds[0].state.ports.len() >= 2,
        forall|i: int|
            0 <= i < tape.len() ==> conformance::follows(
                setting,
                tape,
                worlds,
                i,
                server_cluster::spec_cluster_brokers_agree_on_the_leader(
                    ctx,
                    #[trigger] tape.take(i),
                ),
            ),
    ensures
        trial::judged(
            setting.faults,
            server_cluster::spec_cluster_brokers_agree_on_the_leader(ctx, tape),
        ),
{
    assert(trial::spares(setting.faults, Deed::Cluster));
    conformance::lemma_ranges(setting.schema);
    let version = setting.schema.metadata.max;
    let tag = "agreeleader"@;
    lemma_cluster_nodes(setting, ctx, tape, worlds);
    match server_cluster::spec_cluster_nodes(ctx, tape) {
        Ok((nodes, at)) => {
            if setting.faults.len() > 0 {
                conformance_strays::lemma_stray_flow(
                    setting,
                    ctx,
                    tape,
                    worlds,
                    at,
                    tag,
                    Addressing::Name,
                );
            } else {
                conformance_log::lemma_produce_flow(
                    setting,
                    ctx,
                    tape,
                    worlds,
                    at,
                    tag,
                    Addressing::Name,
                );
            }
            match flows::spec_produce_flow(ctx, tape, at, tag, Addressing::Name) {
                Ok((produced, wrote)) => {
                    let state = worlds[wrote].state;
                    assert(all_nodes(state) =~= nodes);
                    assert(led_to(setting, state, produced.topic, 0) =~= Seq::empty());
                    lemma_leader_answers(
                        setting,
                        ctx,
                        tape,
                        worlds,
                        wrote,
                        version,
                        produced.topic,
                        0,
                    );
                    let ids = state.node_ids();
                    lemma_own_ids(state);
                    let disagree = setting.faults.len() > 0;
                    calibration::law_leader_agreement_is_calibrated(
                        state,
                        produced.topic,
                        ids,
                        disagree,
                    );
                    let faults = if disagree {
                        seq![Fault::BrokersDisagreeOnLeader]
                    } else {
                        Seq::<Fault>::empty()
                    };
                    assert(setting.faults =~= faults);
                    assert(led_to(setting, state, produced.topic, ids.len() as int)
                        =~= ids.map_values(
                        |n: i32| (n, topics::reported_leader(state, produced.topic, n, faults)),
                    ));
                },
                Err(_) => {},
            }
        },
        Err(_) => {},
    }
}

/// Where the broker that is said to coordinate a group listens.
pub open spec fn owner_address(
    setting: Setting,
    state: ClusterView,
    group: Seq<char>,
    node_id: i32,
) -> Seq<char> {
    conformance::address_of(
        state.port_of(offsets::spec_owner(state, group, node_id, setting.faults)),
    )
}

/// Asking a broker who coordinates a group.
proof fn lemma_owner(
    setting: Setting,
    tape: Seq<Event>,
    worlds: Seq<World>,
    at: int,
    label: Label<Seq<char>>,
    conn: usize,
    version: i16,
    correlation: i32,
    group: Seq<char>,
)
    requires
        0 <= at <= tape.len(),
        conformance::is_modern(setting.schema),
        conformance::is_placed(worlds[at].state),
        worlds[at].state.live().len() > 0,
        conformance::is_served(worlds[at], conn),
        1 <= worlds[at].lines[conn as int].node_id <= worlds[at].state.ports.len(),
        setting.schema.find_coordinator.min <= version <= setting.schema.find_coordinator.max,
        at < tape.len() ==> conformance::follows(
            setting,
            tape,
            worlds,
            at,
            asks::spec_ask_find_coordinator(
                tape.take(at),
                at,
                label,
                finding(conn, version, correlation, group),
            ),
        ),
    ensures
        match asks::spec_ask_find_coordinator(
            tape,
            at,
            label,
            finding(conn, version, correlation, group),
        ) {
            Ok((answer, to)) => {
                &&& to == at + 1 <= tape.len()
                &&& worlds[to] == worlds[at]
                &&& !find::coordinator_settling(answer, version)
                &&& find::spec_coordinator_endpoint(answer, version) == Some(
                    owner_address(
                        setting,
                        worlds[at].state,
                        group,
                        worlds[at].lines[conn as int].node_id,
                    ),
                )
                &&& forall|i: int|
                    to <= i <= tape.len() ==> asks::spec_ask_find_coordinator(
                        #[trigger] tape.take(i),
                        at,
                        label,
                        finding(conn, version, correlation, group),
                    ) == Ok::<(FindCoordinatorAnswer, int), HaltView>((answer, to))
            },
            Err(HaltView::Ask(_)) => at == tape.len(),
            _ => false,
        },
{
    conformance::lemma_group_ranges(setting.schema);
    reveal_strlit("127.0.0.1");
    let state = worlds[at].state;
    let k = conformance_log::lemma_placed(state, group);
    let owner = offsets::spec_owner(
        state,
        group,
        worlds[at].lines[conn as int].node_id,
        setting.faults,
    );
    assert(1 <= owner <= state.ports.len());
    assert(1 <= state.ports[owner - 1] <= 65535);
    if at < tape.len() {
        assert(tape.take(at).len() == at);
    }
    let request = finding(conn, version, correlation, group)->Call_request;
    conformance::lemma_call(setting, tape, worlds, at, label, conn, version, correlation, request);
    match tape::spec_call(tape, at, label, ActionOf::Call { conn, version, correlation, request }) {
        Ok((Response::FindCoordinator(answer), to)) => {
            assert(worlds[to].lines =~= worlds[at].lines);
            if version >= wire::FIND_COORDINATOR_BATCHED {
                assert(answer.coordinators@[0].error.code == wire::NONE);
            }
        },
        _ => {},
    }
}

/// The question of who coordinates a group.
pub open spec fn finding(conn: usize, version: i16, correlation: i32, group: Seq<char>) -> ActionOf<
    Seq<char>,
    Seq<u8>,
> {
    ActionOf::Call {
        conn,
        version,
        correlation,
        request: RequestOf::FindCoordinator {
            key_type: 0,
            key: group,
            batched: version >= wire::FIND_COORDINATOR_BATCHED,
        },
    }
}

/// Waiting for a broker to name a coordinator: it does so at once.
#[verifier::rlimit(30)]
pub proof fn lemma_owner_named(
    setting: Setting,
    ctx: ServerCtx,
    tape: Seq<Event>,
    worlds: Seq<World>,
    at: int,
    addr: Seq<char>,
    group: Seq<char>,
)
    requires
        0 <= at <= tape.len(),
        conformance::is_learned(setting, ctx),
        conformance::is_placed(worlds[at].state),
        worlds[at].state.live().len() > 0,
        conformance::is_heard(worlds[at].state, addr),
        forall|i: int|
            at <= i < tape.len() ==> conformance::follows(
                setting,
                tape,
                worlds,
                i,
                group_flows::spec_await_coordinator_at(
                    ctx,
                    #[trigger] tape.take(i),
                    at,
                    addr,
                    group,
                ),
            ),
    ensures
        match group_flows::spec_await_coordinator_at(ctx, tape, at, addr, group) {
            Ok((place, to)) => {
                &&& at <= to <= tape.len()
                &&& worlds[to].state == worlds[at].state
                &&& conformance::extends(worlds[at], worlds[to])
                &&& setting.faults.len() == 0 || !setting.faults.contains(
                    Fault::CoordinatorIsWhoeverAsked,
                ) ==> place == Some(
                    conformance::address_of(
                        worlds[at].state.port_of(worlds[at].state.placement(group)),
                    ),
                )
                &&& forall|i: int|
                    to <= i <= tape.len() ==> group_flows::spec_await_coordinator_at(
                        ctx,
                        #[trigger] tape.take(i),
                        at,
                        addr,
                        group,
                    ) == Ok::<(Option<Seq<char>>, int), HaltView>((place, to))
            },
            Err(HaltView::Ask(_)) => true,
            _ => false,
        },
{
    conformance::lemma_group_ranges(setting.schema);
    let version = setting.schema.find_coordinator.max;
    let label = Label::Named("FindCoordinator"@);
    let correlation = ctx::spec_correlation(80, 0);
    if at < tape.len() {
        assert(tape.take(at).len() == at);
    }
    conformance::lemma_connect(setting, tape, worlds, at, addr);
    match tape::spec_connect(tape, at, addr) {
        Ok((conn, found)) => {
            let k = choose|k: int| conformance::listens(worlds[at].state, k, addr);
            assert(conformance::listens(worlds[at].state, k, addr));
            if found < tape.len() {
                assert(tape.take(found).len() == found);
                assert(conformance::follows(
                    setting,
                    tape,
                    worlds,
                    found,
                    group_flows::spec_await_coordinator_at(
                        ctx,
                        tape.take(found),
                        at,
                        addr,
                        group,
                    ),
                ));
            }
            lemma_owner(setting, tape, worlds, found, label, conn, version, correlation, group);
            conformance_groups::lemma_named_at_once(ctx, tape, found, conn, version, 0, group, 80);
            assert forall|i: int| found < i <= tape.len() implies group_flows::spec_ask_coordinator(
                ctx,
                #[trigger] tape.take(i),
                found,
                conn,
                version,
                0,
                group,
                80,
                0,
            ) == group_flows::spec_ask_coordinator(
                ctx,
                tape,
                found,
                conn,
                version,
                0,
                group,
                80,
                0,
            ) by {
                conformance_groups::lemma_named_at_once(
                    ctx,
                    tape.take(i),
                    found,
                    conn,
                    version,
                    0,
                    group,
                    80,
                );
            }
        },
        Err(_) => {},
    }
}

/// What the brokers up to one of them say of a group's coordinator.
pub open spec fn owned_to(setting: Setting, state: ClusterView, group: Seq<char>, n: int) -> Seq<
    NodeView,
> {
    Seq::new(
        n as nat,
        |k: int|
            NodeView {
                node_id: state::spec_node_at(k),
                addr: owner_address(setting, state, group, state::spec_node_at(k)),
            },
    )
}

/// Asking every broker who coordinates a group, from one of them on.
#[verifier::rlimit(40)]
proof fn lemma_coordinator_answers(
    setting: Setting,
    ctx: ServerCtx,
    tape: Seq<Event>,
    worlds: Seq<World>,
    at: int,
    version: i16,
    group: Seq<char>,
    n: int,
)
    requires
        0 <= at <= tape.len(),
        conformance::is_learned(setting, ctx),
        conformance::is_up(worlds[at].state),
        0 <= n <= worlds[at].state.ports.len(),
        setting.schema.find_coordinator.min <= version <= setting.schema.find_coordinator.max,
        forall|i: int|
            at <= i < tape.len() ==> conformance::follows(
                setting,
                tape,
                worlds,
                i,
                server_cluster::spec_coordinator_answers(
                    ctx,
                    #[trigger] tape.take(i),
                    at,
                    version,
                    group,
                    all_nodes(worlds[at].state),
                    n,
                    owned_to(setting, worlds[at].state, group, n),
                ),
            ),
    ensures
        match server_cluster::spec_coordinator_answers(
            ctx,
            tape,
            at,
            version,
            group,
            all_nodes(worlds[at].state),
            n,
            owned_to(setting, worlds[at].state, group, n),
        ) {
            Ok((answers, _)) => answers == owned_to(
                setting,
                worlds[at].state,
                group,
                worlds[at].state.ports.len() as int,
            ),
            Err(HaltView::Ask(_)) => true,
            _ => false,
        },
    decreases worlds[at].state.ports.len() - n,
{
    let state = worlds[at].state;
    let nodes = all_nodes(state);
    conformance_log::lemma_some_live(state);
    if n < nodes.len() {
        let answers = owned_to(setting, state, group, n);
        let addr = nodes[n].addr;
        let label = Label::Final("FindCoordinator"@);
        lemma_listens(state, n);
        if at < tape.len() {
            assert(tape.take(at).len() == at);
        }
        conformance::lemma_connect(setting, tape, worlds, at, addr);
        match tape::spec_connect(tape, at, addr) {
            Ok((conn, found)) => {
                let correlation = ctx::spec_correlation(1_430, n);
                if found < tape.len() {
                    assert(tape.take(found).len() == found);
                }
                lemma_owner(setting, tape, worlds, found, label, conn, version, correlation, group);
                match asks::spec_ask_find_coordinator(
                    tape,
                    found,
                    label,
                    finding(conn, version, correlation, group),
                ) {
                    Ok((answer, told)) => {
                        let place = find::spec_coordinator_endpoint(answer, version)->Some_0;
                        assert(owned_to(setting, state, group, n + 1) =~= answers.push(
                            NodeView { node_id: nodes[n].node_id, addr: place },
                        ));
                        lemma_coordinator_answers(
                            setting,
                            ctx,
                            tape,
                            worlds,
                            told,
                            version,
                            group,
                            n + 1,
                        );
                    },
                    Err(_) => {},
                }
            },
            Err(_) => {},
        }
    }
}

#[verifier::rlimit(40)]
pub proof fn lemma_cluster_brokers_agree_on_the_coordinator(
    setting: Setting,
    ctx: ServerCtx,
    tape: Seq<Event>,
    worlds: Seq<World>,
)
    requires
        trial::is_trial(ServerCheck::ClusterBrokersAgreeOnTheCoordinator, setting.faults),
        conformance::is_set(setting, ctx, worlds[0].state),
        worlds[0].state.ports.len() >= 2,
        forall|i: int|
            0 <= i < tape.len() ==> conformance::follows(
                setting,
                tape,
                worlds,
                i,
                server_cluster::spec_cluster_brokers_agree_on_the_coordinator(
                    ctx,
                    #[trigger] tape.take(i),
                ),
            ),
    ensures
        trial::judged(
            setting.faults,
            server_cluster::spec_cluster_brokers_agree_on_the_coordinator(ctx, tape),
        ),
{
    assert(trial::spares(setting.faults, Deed::Cluster));
    conformance::lemma_group_ranges(setting.schema);
    let version = setting.schema.find_coordinator.max;
    let group = ctx.spec_check_group("agreecoord"@);
    let state = worlds[0].state;
    lemma_cluster_nodes(setting, ctx, tape, worlds);
    match server_cluster::spec_cluster_nodes(ctx, tape) {
        Ok((nodes, at)) => {
            conformance_log::lemma_some_live(state);
            lemma_owner_named(setting, ctx, tape, worlds, at, ctx.addr@, group);
            match group_flows::spec_await_coordinator_at(ctx, tape, at, ctx.addr@, group) {
                Ok((_, named)) => {
                    assert(owned_to(setting, state, group, 0) =~= Seq::empty());
                    lemma_coordinator_answers(
                        setting,
                        ctx,
                        tape,
                        worlds,
                        named,
                        version,
                        group,
                        0,
                    );
                    let ids = state.node_ids();
                    lemma_own_ids(state);
                    let whoever = setting.faults.len() > 0;
                    assert(state.ports[0] != state.ports[1]);
                    calibration_state::law_coordinator_agreement_is_calibrated(
                        state,
                        group,
                        ids,
                        whoever,
                    );
                    assert(setting.faults =~= calibration_state::only_if(
                        Fault::CoordinatorIsWhoeverAsked,
                        whoever,
                    ));
                    assert(owned_to(setting, state, group, ids.len() as int)
                        =~= calibration_state::coordinators(state, group, ids, setting.faults));
                },
                Err(_) => {},
            }
        },
        Err(_) => {},
    }
}

/// Waiting for a topic to be described: it is at once.
pub proof fn lemma_described_at_once(
    ctx: ServerCtx,
    tape: Seq<Event>,
    at: int,
    conn: usize,
    version: i16,
    topic: Seq<char>,
    base: i32,
)
    requires
        server_cluster::spec_leadership_at(
            tape,
            at,
            conn,
            version,
            topic,
            ctx::spec_correlation(base, 0),
        ) matches Ok((seen, _)) ==> seen is Some && seen->Some_0.leader_id >= 0,
    ensures
        server_cluster::spec_await_described(ctx, tape, at, conn, version, topic, base, 0)
            == described(ctx, tape, at, conn, version, topic, base),
        server_cluster::spec_settle_leadership(ctx, tape, at, conn, version, topic, base, 0)
            == described(ctx, tape, at, conn, version, topic, base),
{
}

/// The first description of a topic.
pub open spec fn described(
    ctx: ServerCtx,
    tape: Seq<Event>,
    at: int,
    conn: usize,
    version: i16,
    topic: Seq<char>,
    base: i32,
) -> tape::FlowView<PartitionRow> {
    match tape::spec_doing(
        server_cluster::spec_leadership_at(
            tape,
            at,
            conn,
            version,
            topic,
            ctx::spec_correlation(base, 0),
        ),
        "Metadata"@,
    ) {
        Err(halt) => Err(halt),
        Ok((seen, at)) => Ok((seen->Some_0, at)),
    }
}

#[verifier::rlimit(60)]
pub proof fn lemma_cluster_replicas_span_brokers(
    setting: Setting,
    ctx: ServerCtx,
    tape: Seq<Event>,
    worlds: Seq<World>,
)
    requires
        trial::is_trial(ServerCheck::ClusterReplicasSpanBrokers, setting.faults),
        conformance::is_set(setting, ctx, worlds[0].state),
        worlds[0].state.ports.len() >= 2,
        forall|i: int|
            0 <= i < tape.len() ==> conformance::follows(
                setting,
                tape,
                worlds,
                i,
                server_cluster::spec_cluster_replicas_span_brokers(ctx, #[trigger] tape.take(i)),
            ),
    ensures
        trial::judged(
            setting.faults,
            server_cluster::spec_cluster_replicas_span_brokers(ctx, tape),
        ),
{
    assert(trial::spares(setting.faults, Deed::Cluster));
    conformance::lemma_ranges(setting.schema);
    let create = setting.schema.create_topics.max;
    let version = setting.schema.metadata.max;
    let state = worlds[0].state;
    lemma_cluster_nodes(setting, ctx, tape, worlds);
    match server_cluster::spec_cluster_nodes(ctx, tape) {
        Ok((nodes, at)) => {
            let wanted = nodes.len() as i16;
            if at < tape.len() {
                assert(tape.take(at).len() == at);
            }
            conformance::lemma_connect(setting, tape, worlds, at, ctx.addr@);
            match tape::spec_connect(tape, at, ctx.addr@) {
                Ok((conn, found)) => {
                    conformance::lemma_fresh_topic(setting, ctx, tape, worlds, found, "spanned"@);
                    match ctx::spec_fresh_topic(ctx, tape, found, "spanned"@) {
                        Ok((topic, named)) => {
                            lemma_span_created(
                                setting,
                                ctx,
                                tape,
                                worlds,
                                named,
                                conn,
                                create,
                                version,
                                topic,
                                wanted,
                            );
                            assert(server_cluster::ids_in(nodes) =~= state.node_ids());
                        },
                        Err(_) => {},
                    }
                },
                Err(_) => {},
            }
        },
        Err(_) => {},
    }
}

/// Creating a topic with a copy on every broker, and judging where they are.
pub open spec fn span_created(
    ctx: ServerCtx,
    tape: Seq<Event>,
    at: int,
    conn: usize,
    create_version: i16,
    metadata_version: i16,
    topic: Seq<char>,
    wanted: i16,
    count: int,
    known: Seq<i32>,
) -> tape::FlowView<VerdictView> {
    match tape::spec_doing(
        asks::spec_ask_create_topics(
            tape,
            at,
            Label::Final("CreateTopics"@),
            ActionOf::Call {
                conn,
                version: create_version,
                correlation: 1_450,
                request: RequestOf::CreateTopics {
                    topic: topic,
                    replication_factor: wanted,
                    validate_only: false,
                },
            },
        ),
        "CreateTopics"@,
    ) {
        Err(halt) => Err(halt),
        Ok((rows, at)) => match server_cluster::spec_creation_refused(rows@) {
            Some(code) => Err(
                tape::spec_skip(
                    "the subject would not create a "@ + text::dec(wanted as int)
                        + "-replica topic on its "@ + text::dec(count) + " broker(s): "@
                        + code.shown@,
                    at,
                ),
            ),
            None => match server_cluster::spec_await_described(
                ctx,
                tape,
                at,
                conn,
                metadata_version,
                topic,
                1_460,
                0,
            ) {
                Err(halt) => Err(halt),
                Ok((row, at)) => {
                    Ok((server_cluster::spec_judge_span(topic, row, wanted, known), at))
                },
            },
        },
    }
}

#[verifier::rlimit(40)]
proof fn lemma_span_created(
    setting: Setting,
    ctx: ServerCtx,
    tape: Seq<Event>,
    worlds: Seq<World>,
    at: int,
    conn: usize,
    create_version: i16,
    metadata_version: i16,
    topic: Seq<char>,
    wanted: i16,
)
    requires
        trial::is_trial(ServerCheck::ClusterReplicasSpanBrokers, setting.faults),
        0 <= at <= tape.len(),
        conformance::is_modern(setting.schema),
        conformance::is_up(worlds[at].state),
        conformance::is_open(worlds[at], conn),
        conformance::is_free(worlds[at].state, topic),
        2 <= worlds[at].state.ports.len() == wanted,
        setting.schema.create_topics.min <= create_version <= setting.schema.create_topics.max,
        setting.schema.metadata.min <= metadata_version <= setting.schema.metadata.max,
        forall|i: int|
            at <= i < tape.len() ==> conformance::follows(
                setting,
                tape,
                worlds,
                i,
                span_created(
                    ctx,
                    #[trigger] tape.take(i),
                    at,
                    conn,
                    create_version,
                    metadata_version,
                    topic,
                    wanted,
                    worlds[at].state.ports.len() as int,
                    worlds[at].state.node_ids(),
                ),
            ),
    ensures
        trial::judged(
            setting.faults,
            span_created(
                ctx,
                tape,
                at,
                conn,
                create_version,
                metadata_version,
                topic,
                wanted,
                worlds[at].state.ports.len() as int,
                worlds[at].state.node_ids(),
            ),
        ),
{
    let state = worlds[at].state;
    let label = Label::Final("CreateTopics"@);
    conformance::lemma_create(
        setting,
        tape,
        worlds,
        at,
        label,
        conn,
        create_version,
        1_450,
        topic,
        wanted,
        false,
    );
    assert(topics::broker_limit(state) == wanted);
    match asks::spec_ask_create_topics(
        tape,
        at,
        label,
        ActionOf::Call {
            conn,
            version: create_version,
            correlation: 1_450,
            request: RequestOf::CreateTopics {
                topic: topic,
                replication_factor: wanted,
                validate_only: false,
            },
        },
    ) {
        Ok((rows, created)) => {
            let after = worlds[created].state;
            let correlation = ctx::spec_correlation(1_460, 0);
            conformance_log::lemma_same_placement(state, after, topic);
            conformance_log::lemma_some_live(after);
            conformance_log::lemma_all_live(after);
            let k = conformance_log::lemma_placed(after, topic);
            if created < tape.len() {
                assert(tape.take(created).len() == created);
                assert(conformance::follows(
                    setting,
                    tape,
                    worlds,
                    created,
                    span_created(
                        ctx,
                        tape.take(created),
                        at,
                        conn,
                        create_version,
                        metadata_version,
                        topic,
                        wanted,
                        state.ports.len() as int,
                        state.node_ids(),
                    ),
                ));
            }
            lemma_leadership(
                setting,
                tape,
                worlds,
                created,
                conn,
                metadata_version,
                topic,
                correlation,
            );
            lemma_described_at_once(ctx, tape, created, conn, metadata_version, topic, 1_460);
            match server_cluster::spec_leadership_at(
                tape,
                created,
                conn,
                metadata_version,
                topic,
                correlation,
            ) {
                Ok((Some(row), _)) => {
                    let collapse = setting.faults.len() > 0;
                    assert(setting.faults =~= calibration_state::only_if(
                        Fault::ReplicasCollapseToTheLeader,
                        collapse,
                    ));
                    assert(after.node_ids() =~= state.node_ids());
                    calibration_state::law_replica_span_is_calibrated(
                        after,
                        topic,
                        row,
                        wanted,
                        collapse,
                    );
                },
                _ => {},
            }
        },
        Err(_) => {},
    }
}

} // verus!

//! Runs of the checks that ask a broker for what is another's.

use vstd::prelude::*;
use vstd::string::*;

use crate::checks::batch;
use crate::checks::calibration;
use crate::checks::conformance;
use crate::checks::conformance::{Setting, World};
use crate::checks::conformance_cluster;
use crate::checks::conformance_log;
use crate::checks::conformance_members;
use crate::checks::conformance_strays;
use crate::checks::conformance_txn;
use crate::checks::ctx;
use crate::checks::ctx::ServerCtx;
use crate::checks::find;
use crate::checks::flows;
use crate::checks::flows::{Addressing, ProducedView};
use crate::checks::group_flows;
use crate::checks::server::ServerCheck;
use crate::checks::server_cluster;
use crate::checks::server_cluster::NodeView;
use crate::checks::server_groups;
use crate::checks::tape;
use crate::checks::tape::{ActionOf, Event, HaltView, Label};
use crate::checks::trial;
use crate::checks::trial::Deed;
use crate::checks::txn_flows;
use crate::subject::offsets;
use crate::subject::requests::{CommitPartitionView, CommitTopicView};
use crate::subject::state;
use crate::subject::state::ClusterView;
use crate::subject::topics;
use crate::text;
use crate::wire;
use crate::wire::{RequestOf, Response, TopicOf};
use crate::VerdictView;

verus! {

/// A plain write to a broker that does not lead the topic.
#[verifier::rlimit(30)]
proof fn lemma_stray_row(
    setting: Setting,
    tape: Seq<Event>,
    worlds: Seq<World>,
    at: int,
    conn: usize,
    version: i16,
    topic: Seq<char>,
    correlation: i32,
)
    requires
        trial::is_trial(ServerCheck::ClusterWritesGoToTheLeader, setting.faults),
        0 <= at <= tape.len(),
        conformance::is_modern(setting.schema),
        conformance::is_up(worlds[at].state),
        conformance::is_open(worlds[at], conn),
        setting.schema.produce.min <= version <= setting.schema.produce.max,
        worlds[at].lines[conn as int].node_id != worlds[at].state.placement(topic),
        topic.len() > 0,
        forall|i: int|
            at <= i < tape.len() ==> conformance::follows(
                setting,
                tape,
                worlds,
                i,
                txn_flows::spec_produce_stamped(
                    #[trigger] tape.take(i),
                    at,
                    conn,
                    version,
                    batch::spec_plain_stamp(),
                    topic,
                    correlation,
                ),
            ),
    ensures
        match txn_flows::spec_produce_stamped(
            tape,
            at,
            conn,
            version,
            batch::spec_plain_stamp(),
            topic,
            correlation,
        ) {
            Ok((row, _)) => row.error.code == if setting.faults.len() > 0 {
                wire::NONE
            } else {
                wire::NOT_LEADER_OR_FOLLOWER
            },
            Err(HaltView::Ask(_)) => true,
            _ => false,
        },
{
    let stamp = batch::spec_plain_stamp();
    let label = Label::Named("transactional batch"@);
    if setting.faults.len() > 0 {
        assert(trial::spares(setting.faults, Deed::Write));
        assert(trial::spares(setting.faults, Deed::Shape));
        conformance_txn::lemma_produce_stamped(
            setting,
            tape,
            worlds,
            at,
            conn,
            version,
            stamp,
            topic,
            correlation,
        );
        match txn_flows::spec_produce_stamped(tape, at, conn, version, stamp, topic, correlation) {
            Ok((row, to)) => {
                let records = choose|records: Seq<u8>| #[trigger]
                    conformance_txn::took(
                        setting,
                        worlds[at].state,
                        worlds[to].state,
                        topic,
                        stamp,
                        row,
                        records,
                    );
                assert(conformance::encodes_probe(setting, records, stamp.spec_on_batch()));
            },
            Err(_) => {},
        }
    } else {
        conformance_log::lemma_encode(setting, tape, worlds, at, label, stamp.spec_on_batch());
        match tape::spec_encode(
            tape,
            at,
            label,
            ActionOf::Encode { stamp: stamp.spec_on_batch() },
        ) {
            Ok((records, encoded)) => {
                if encoded < tape.len() {
                    assert(tape.take(encoded).len() == encoded);
                }
                conformance_strays::lemma_refused(
                    setting,
                    tape,
                    worlds,
                    encoded,
                    Label::Named("Produce"@),
                    conn,
                    version,
                    correlation,
                    TopicOf::Name(topic),
                    records@,
                    wire::NOT_LEADER_OR_FOLLOWER,
                );
            },
            Err(_) => {},
        }
    }
}

/// Some broker of several is not a given one.
pub proof fn lemma_another(state: ClusterView, node_id: i32) -> (k: int)
    requires
        conformance::is_placed(state),
        state.ports.len() >= 2,
    ensures
        0 <= k < state.ports.len(),
        state::spec_node_at(k) != node_id,
        find::first_where(
            conformance_cluster::all_nodes(state),
            server_cluster::without_id(node_id),
        ) == Some(
            conformance_cluster::all_nodes(state)[k],
        ),
{
    let nodes = conformance_cluster::all_nodes(state);
    let other = server_cluster::without_id(node_id);
    calibration::lemma_first_where(nodes, other);
    if node_id == 1 {
        assert(other(nodes[1]));
    } else {
        assert(other(nodes[0]));
    }
    let found = find::first_where(nodes, other)->Some_0;
    choose|k: int| 0 <= k < nodes.len() && nodes[k] == found
}

/// What the check on stray writes does once the topic is written to.
pub open spec fn strayed_after(
    tape: Seq<Event>,
    at: int,
    addr: Seq<char>,
    metadata_version: i16,
    produce_version: i16,
    produced: ProducedView,
    nodes: Seq<NodeView>,
) -> tape::FlowView<VerdictView> {
    match tape::spec_connect(tape, at, addr) {
        Err(halt) => Err(halt),
        Ok((conn, at)) => match tape::spec_doing(
            server_cluster::spec_leadership_at(
                tape,
                at,
                conn,
                metadata_version,
                produced.topic,
                1_470,
            ),
            "Metadata"@,
        ) {
            Err(halt) => Err(halt),
            Ok((seen, at)) => match seen {
                None => Err(
                        tape::spec_error(
                            produced.topic + " has no described leader"@,
                            at,
                        ),
                    ),
                Some(row) => {
                    let leader = row.leader_id;
                    match find::first_where(nodes, server_cluster::without_id(leader)) {
                        None => Err(
                                tape::spec_skip(
                                    "every broker the subject reports is node "@
                                        + text::dec(leader as int)
                                        + ", so there is no non-leader to send to"@,
                                    at,
                                ),
                            ),
                        Some(other) => match tape::spec_connect(
                            tape,
                            at,
                            other.addr,
                        ) {
                            Err(halt) => Err(halt),
                            Ok((conn, at)) => match tape::spec_doing(
                                txn_flows::spec_produce_stamped(
                                    tape,
                                    at,
                                    conn,
                                    produce_version,
                                    batch::spec_plain_stamp(),
                                    produced.topic,
                                    1_480,
                                ),
                                "Produce (to a non-leader)"@,
                            ) {
                                Err(halt) => Err(halt),
                                Ok((written, at)) => tape::spec_rule(
                                    server_cluster::spec_judge_stray_write(
                                        written,
                                        other.node_id,
                                        produced.topic,
                                        leader,
                                    ),
                                    at,
                                ),
                            },
                        },
                    }
                },
            },
        },
    }
}

#[verifier::rlimit(40)]
proof fn lemma_strayed_after(
    setting: Setting,
    ctx: ServerCtx,
    tape: Seq<Event>,
    worlds: Seq<World>,
    at: int,
    metadata_version: i16,
    produce_version: i16,
    produced: ProducedView,
)
    requires
        trial::is_trial(ServerCheck::ClusterWritesGoToTheLeader, setting.faults),
        0 <= at <= tape.len(),
        conformance::is_set(setting, ctx, worlds[at].state),
        worlds[at].state.ports.len() >= 2,
        produced.topic.len() > 0,
        worlds[at].state.created.contains_key(produced.topic),
        setting.schema.metadata.min <= metadata_version <= setting.schema.metadata.max,
        setting.schema.produce.min <= produce_version <= setting.schema.produce.max,
        forall|i: int|
            at <= i < tape.len() ==> conformance::follows(
                setting,
                tape,
                worlds,
                i,
                strayed_after(
                    #[trigger] tape.take(i),
                    at,
                    ctx.addr@,
                    metadata_version,
                    produce_version,
                    produced,
                    conformance_cluster::all_nodes(worlds[at].state),
                ),
            ),
    ensures
        trial::judged(
            setting.faults,
            strayed_after(
                tape,
                at,
                ctx.addr@,
                metadata_version,
                produce_version,
                produced,
                conformance_cluster::all_nodes(worlds[at].state),
            ),
        ),
{
    let state = worlds[at].state;
    if at < tape.len() {
        assert(tape.take(at).len() == at);
    }
    conformance::lemma_connect(setting, tape, worlds, at, ctx.addr@);
    match tape::spec_connect(tape, at, ctx.addr@) {
        Ok((conn, found)) => {
            if found < tape.len() {
                assert(tape.take(found).len() == found);
            }
            conformance_cluster::lemma_leadership(
                setting,
                tape,
                worlds,
                found,
                conn,
                metadata_version,
                produced.topic,
                1_470,
            );
            match server_cluster::spec_leadership_at(
                tape,
                found,
                conn,
                metadata_version,
                produced.topic,
                1_470,
            ) {
                Ok((Some(row), told)) => {
                    assert(row.leader_id == state.placement(produced.topic));
                    let k = lemma_another(state, row.leader_id);
                    let other = conformance_cluster::all_nodes(state)[k];
                    conformance_cluster::lemma_listens(state, k);
                    if told < tape.len() {
                        assert(tape.take(told).len() == told);
                    }
                    conformance::lemma_connect(setting, tape, worlds, told, other.addr);
                    match tape::spec_connect(tape, told, other.addr) {
                        Ok((stray, dialed)) => {
                            lemma_stray_row(
                                setting,
                                tape,
                                worlds,
                                dialed,
                                stray,
                                produce_version,
                                produced.topic,
                                1_480,
                            );
                        },
                        Err(_) => {},
                    }
                },
                _ => {},
            }
        },
        Err(_) => {},
    }
}

#[verifier::rlimit(40)]
pub proof fn lemma_cluster_writes_go_to_the_leader(
    setting: Setting,
    ctx: ServerCtx,
    tape: Seq<Event>,
    worlds: Seq<World>,
)
    requires
        trial::is_trial(ServerCheck::ClusterWritesGoToTheLeader, setting.faults),
        conformance::is_set(setting, ctx, worlds[0].state),
        worlds[0].state.ports.len() >= 2,
        forall|i: int|
            0 <= i < tape.len() ==> conformance::follows(
                setting,
                tape,
                worlds,
                i,
                server_cluster::spec_cluster_writes_go_to_the_leader(ctx, #[trigger] tape.take(i)),
            ),
    ensures
        trial::judged(
            setting.faults,
            server_cluster::spec_cluster_writes_go_to_the_leader(ctx, tape),
        ),
{
    assert(trial::spares(setting.faults, Deed::Cluster));
    assert(trial::spares(setting.faults, Deed::Topic));
    assert(trial::spares(setting.faults, Deed::Write));
    conformance::lemma_ranges(setting.schema);
    let newest = setting.schema.produce.max;
    conformance_cluster::lemma_cluster_nodes(setting, ctx, tape, worlds);
    match server_cluster::spec_cluster_nodes(ctx, tape) {
        Ok((nodes, at)) => {
            conformance_log::lemma_produce_flow(
                setting,
                ctx,
                tape,
                worlds,
                at,
                "notleader"@,
                Addressing::Name,
            );
            match flows::spec_produce_flow(ctx, tape, at, "notleader"@, Addressing::Name) {
                Ok((produced, wrote)) => {
                    assert(conformance_cluster::all_nodes(worlds[wrote].state) =~= nodes);
                    lemma_strayed_after(
                        setting,
                        ctx,
                        tape,
                        worlds,
                        wrote,
                        setting.schema.metadata.max,
                        if newest <= flows::PRODUCE_NAME_MAX { newest } else {
                            flows::PRODUCE_NAME_MAX
                        },
                        produced,
                    );
                },
                Err(_) => {},
            }
        },
        Err(_) => {},
    }
}

/// What ends in a text has it.
proof fn lemma_ends_in(lead: Seq<char>, needle: Seq<char>)
    ensures
        text::has_text(lead + needle, needle),
{
    assert((lead + needle).subrange(lead.len() as int, (lead + needle).len() as int) =~= needle);
    assert(text::stands_at(lead + needle, needle, lead.len() as int));
}

/// A commit at a broker that does not coordinate the group.
#[verifier::rlimit(40)]
proof fn lemma_stray_commit(
    setting: Setting,
    tape: Seq<Event>,
    worlds: Seq<World>,
    at: int,
    conn: usize,
    version: i16,
    group: Seq<char>,
    offset: i64,
    correlation: i32,
    produced: ProducedView,
)
    requires
        setting.faults.len() == 0,
        0 <= at <= tape.len(),
        conformance::is_modern(setting.schema),
        conformance::is_up(worlds[at].state),
        conformance::is_open(worlds[at], conn),
        setting.schema.offset_commit.min <= version <= setting.schema.offset_commit.max,
        worlds[at].lines[conn as int].node_id != worlds[at].state.placement(group),
        at < tape.len() ==> conformance::follows(
            setting,
            tape,
            worlds,
            at,
            group_flows::spec_commit_offset(
                tape.take(at),
                at,
                conn,
                version,
                group,
                produced.topic,
                produced.topic_id,
                offset,
                correlation,
            ),
        ),
    ensures
        match group_flows::spec_commit_offset(
            tape,
            at,
            conn,
            version,
            group,
            produced.topic,
            produced.topic_id,
            offset,
            correlation,
        ) {
            Ok(_) => false,
            Err(HaltView::Ask(_)) => at == tape.len(),
            Err(HaltView::Broke(tape::ErrorView::Violation(details), _)) => text::has_text(
                details,
                (setting.shown)(wire::NOT_COORDINATOR),
            ),
            _ => false,
        },
{
    conformance::lemma_group_ranges(setting.schema);
    if at < tape.len() {
        assert(tape.take(at).len() == at);
    }
    let topic = group_flows::spec_offsets_topic(version, produced.topic, produced.topic_id);
    let request = RequestOf::OffsetCommit { group, topic, offset, metadata: None };
    let label = Label::Named("OffsetCommit"@);
    conformance::lemma_call(setting, tape, worlds, at, label, conn, version, correlation, request);
    if at < tape.len() {
        reveal(conformance::performs);
        let partition = CommitPartitionView {
            partition_index: 0,
            committed_offset: offset,
            committed_metadata: None,
        };
        let asked = CommitTopicView {
            name: conformance::spelled(topic).0,
            topic_id: conformance::spelled(topic).1,
            partitions: seq![partition],
        };
        assert(offsets::is_elsewhere(
            worlds[at].state,
            group,
            worlds[at].lines[conn as int].node_id,
            setting.faults,
        ));
        match tape::spec_call(
            tape,
            at,
            label,
            ActionOf::Call { conn, version, correlation, request },
        ) {
            Ok((Response::OffsetCommit(topics), _)) => {
                assert(topics@[0].name@ == topics@[0].name@);
                let code = topics@[0].partitions@[0];
                assert(code.code == wire::NOT_COORDINATOR);
                assert(find::commit_for(version, produced.topic, produced.topic_id)(topics@[0]));
                assert(code.shown@ == (setting.shown)(code.code));
                lemma_ends_in(
                    "committing "@ + text::dec(offset as int) + " for "@ + produced.topic
                        + "[0] failed: "@,
                    code.shown@,
                );
            },
            _ => {},
        }
    }
}

/// What the check on stray commits does once the coordinator is named.
pub open spec fn misplaced_after(
    ctx: ServerCtx,
    tape: Seq<Event>,
    at: int,
    version: i16,
    group: Seq<char>,
    produced: ProducedView,
    coordinator: Seq<char>,
    nodes: Seq<NodeView>,
) -> tape::FlowView<VerdictView> {
    match find::first_where(nodes, server_cluster::placed_elsewhere(coordinator)) {
        None => Err(
                tape::spec_skip(
                    "every broker the subject reports is at "@
                        + coordinator
                        + ", so there is no non-coordinator to commit against"@,
                    at,
                ),
            ),
        Some(other) => match tape::spec_connect(
            tape,
            at,
            other.addr,
        ) {
            Err(halt) => Err(halt),
            Ok((conn, at)) => match group_flows::spec_await_topic_known(
                ctx,
                tape,
                at,
                conn,
                produced.topic,
                1_490,
            ) {
                Err(halt) => Err(halt),
                Ok((_, at)) => server_cluster::spec_judge_misplaced(
                    group_flows::spec_commit_offset(
                        tape,
                        at,
                        conn,
                        version,
                        group,
                        produced.topic,
                        produced.topic_id,
                        13,
                        1_495,
                    ),
                    ctx.names.not_coordinator@,
                    other.node_id,
                    group,
                    coordinator,
                ),
            },
        },
    }
}

/// The address of a broker is not that of another.
proof fn lemma_elsewhere(state: ClusterView, node_id: i32) -> (k: int)
    requires
        conformance::is_up(state),
        state.ports.len() >= 2,
        1 <= node_id <= state.ports.len(),
    ensures
        0 <= k < state.ports.len(),
        state::spec_node_at(k) != node_id,
        find::first_where(
            conformance_cluster::all_nodes(state),
            server_cluster::placed_elsewhere(conformance::address_of(state.port_of(node_id))),
        ) == Some(conformance_cluster::all_nodes(state)[k]),
{
    let nodes = conformance_cluster::all_nodes(state);
    let addr = conformance::address_of(state.port_of(node_id));
    let other = server_cluster::placed_elsewhere(addr);
    calibration::lemma_first_where(nodes, other);
    let j: int = if node_id == 1 {
        1
    } else {
        0
    };
    conformance_cluster::lemma_listens(state, j);
    conformance_cluster::lemma_listens(state, node_id - 1);
    if nodes[j].addr == addr {
        conformance::lemma_own_address(state, addr, j, node_id - 1);
    }
    assert(other(nodes[j]));
    let found = find::first_where(nodes, other)->Some_0;
    choose|k: int| 0 <= k < nodes.len() && nodes[k] == found
}

#[verifier::rlimit(40)]
proof fn lemma_misplaced_after(
    setting: Setting,
    ctx: ServerCtx,
    tape: Seq<Event>,
    worlds: Seq<World>,
    at: int,
    version: i16,
    group: Seq<char>,
    produced: ProducedView,
)
    requires
        trial::is_trial(ServerCheck::ClusterGroupOffsetsNeedTheCoordinator, setting.faults),
        0 <= at <= tape.len(),
        conformance::is_set(setting, ctx, worlds[at].state),
        worlds[at].state.ports.len() >= 2,
        worlds[at].state.created.contains_key(produced.topic),
        conformance_members::is_known(worlds[at].state, produced),
        produced.topic_id@ != wire::zero_id(),
        setting.schema.offset_commit.min <= version <= setting.schema.offset_commit.max,
        forall|i: int|
            at <= i < tape.len() ==> conformance::follows(
                setting,
                tape,
                worlds,
                i,
                misplaced_after(
                    ctx,
                    #[trigger] tape.take(i),
                    at,
                    version,
                    group,
                    produced,
                    conformance::address_of(
                        worlds[at].state.port_of(worlds[at].state.placement(group)),
                    ),
                    conformance_cluster::all_nodes(worlds[at].state),
                ),
            ),
    ensures
        trial::judged(
            setting.faults,
            misplaced_after(
                ctx,
                tape,
                at,
                version,
                group,
                produced,
                conformance::address_of(
                    worlds[at].state.port_of(worlds[at].state.placement(group)),
                ),
                conformance_cluster::all_nodes(worlds[at].state),
            ),
        ),
{
    let state = worlds[at].state;
    assert(trial::spares(setting.faults, Deed::Cluster));
    conformance_log::lemma_some_live(state);
    let home = conformance_log::lemma_placed(state, group);
    let k = lemma_elsewhere(state, state.placement(group));
    let other = conformance_cluster::all_nodes(state)[k];
    conformance_cluster::lemma_listens(state, k);
    if at < tape.len() {
        assert(tape.take(at).len() == at);
    }
    conformance::lemma_connect(setting, tape, worlds, at, other.addr);
    match tape::spec_connect(tape, at, other.addr) {
        Ok((conn, found)) => {
            conformance_members::lemma_await_topic(
                setting,
                ctx,
                tape,
                worlds,
                found,
                conn,
                produced.topic,
                1_490,
            );
            match group_flows::spec_await_topic_known(
                ctx,
                tape,
                found,
                conn,
                produced.topic,
                1_490,
            ) {
                Ok((_, known)) => {
                    if setting.faults.len() > 0 {
                        conformance_members::lemma_commit_offset(
                            setting,
                            tape,
                            worlds,
                            known,
                            conn,
                            version,
                            group,
                            13,
                            1_495,
                            produced,
                        );
                    } else {
                        if known < tape.len() {
                            assert(tape.take(known).len() == known);
                        }
                        lemma_stray_commit(
                            setting,
                            tape,
                            worlds,
                            known,
                            conn,
                            version,
                            group,
                            13,
                            1_495,
                            produced,
                        );
                    }
                },
                Err(_) => {},
            }
        },
        Err(_) => {},
    }
}

#[verifier::rlimit(40)]
pub proof fn lemma_cluster_group_offsets_need_the_coordinator(
    setting: Setting,
    ctx: ServerCtx,
    tape: Seq<Event>,
    worlds: Seq<World>,
)
    requires
        trial::is_trial(ServerCheck::ClusterGroupOffsetsNeedTheCoordinator, setting.faults),
        conformance::is_set(setting, ctx, worlds[0].state),
        worlds[0].state.ports.len() >= 2,
        forall|i: int|
            0 <= i < tape.len() ==> conformance::follows(
                setting,
                tape,
                worlds,
                i,
                server_cluster::spec_cluster_group_offsets_need_the_coordinator(
                    ctx,
                    #[trigger] tape.take(i),
                ),
            ),
    ensures
        trial::judged(
            setting.faults,
            server_cluster::spec_cluster_group_offsets_need_the_coordinator(ctx, tape),
        ),
{
    assert(trial::spares(setting.faults, Deed::Cluster));
    assert(trial::spares(setting.faults, Deed::Topic));
    assert(trial::spares(setting.faults, Deed::Write));
    conformance::lemma_group_ranges(setting.schema);
    conformance_cluster::lemma_cluster_nodes(setting, ctx, tape, worlds);
    let version = setting.schema.offset_commit.max;
    let group = ctx.spec_check_group("notcoord"@);
    match server_cluster::spec_cluster_nodes(ctx, tape) {
        Ok((nodes, at)) => {
            assert(server_groups::spec_offsets_versions(ctx, at) == Ok::<(i16, i16), HaltView>(
                (version, setting.schema.offset_fetch.max),
            ));
            conformance_log::lemma_produce_flow(
                setting,
                ctx,
                tape,
                worlds,
                at,
                "notcoord"@,
                Addressing::Name,
            );
            match flows::spec_produce_flow(ctx, tape, at, "notcoord"@, Addressing::Name) {
                Ok((produced, wrote)) => {
                    assert(conformance_cluster::all_nodes(worlds[wrote].state) =~= nodes);
                    conformance_log::lemma_some_live(worlds[wrote].state);
                    conformance_cluster::lemma_owner_named(
                        setting,
                        ctx,
                        tape,
                        worlds,
                        wrote,
                        ctx.addr@,
                        group,
                    );
                    match group_flows::spec_await_coordinator_at(
                        ctx,
                        tape,
                        wrote,
                        ctx.addr@,
                        group,
                    ) {
                        Ok((place, named)) => {
                            lemma_misplaced_after(
                                setting,
                                ctx,
                                tape,
                                worlds,
                                named,
                                version,
                                group,
                                produced,
                            );
                        },
                        Err(_) => {},
                    }
                },
                Err(_) => {},
            }
        },
        Err(_) => {},
    }
}

} // verus!

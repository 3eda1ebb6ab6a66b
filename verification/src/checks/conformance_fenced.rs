//! Runs of the checks on what a producer may do once it is replaced, and on
//! offsets that wait for a commit.

use vstd::prelude::*;
use vstd::string::*;

use crate::checks::batch;
use crate::checks::conformance;
use crate::checks::conformance::{Setting, World};
use crate::checks::conformance_ends;
use crate::checks::conformance_groups;
use crate::checks::conformance_log;
use crate::checks::conformance_members;
use crate::checks::conformance_txn;
use crate::checks::ctx;
use crate::checks::ctx::ServerCtx;
use crate::checks::flows;
use crate::checks::flows::{Addressing, ProducedView};
use crate::checks::group_flows;
use crate::checks::server::ServerCheck;
use crate::checks::server_groups;
use crate::checks::server_txn;
use crate::checks::tape;
use crate::checks::tape::{ActionOf, Event, FlowView, HaltView, Label};
use crate::checks::trial;
use crate::checks::trial::Deed;
use crate::checks::txn_flows;
use crate::checks::txn_flows::{Claim, TxnVersions};
use crate::subject::Fault;
use crate::subject::log;
use crate::subject::offsets;
use crate::subject::requests::{CommitPartitionView, TxnOffsetTopicView};
use crate::subject::state::{ClusterView, CommitView, OffsetKey, TxnView};
use crate::subject::txn;
use crate::wire;
use crate::wire::{ErrorCode, RequestOf, Response, TxnActorOf};
use crate::VerdictView;

verus! {

/// What becomes of a producer whose id was claimed anew.
pub open spec fn fenced_after(
    ctx: ServerCtx,
    tape: Seq<Event>,
    at: int,
    versions: TxnVersions,
    produced: ProducedView,
    id: Seq<char>,
    first: Claim,
    zombie: TxnActorOf<Seq<char>>,
) -> FlowView<VerdictView> {
    match txn_flows::spec_open_transaction(
        ctx,
        tape,
        at,
        first.conn,
        produced.conn,
        versions,
        zombie,
        produced.topic,
        1_220,
    ) {
        Err(halt) => Err(halt),
        Ok((_, at)) => match tape::spec_doing(
            txn_flows::spec_init_producer_id(
                ctx,
                tape,
                at,
                versions.init,
                id,
                1_260,
            ),
            "InitProducerId (second)"@,
        ) {
            Err(halt) => Err(halt),
            Ok((second, at)) => if second.producer_epoch <= first.producer_epoch {
                Err(
                    tape::spec_skip(
                        "the epoch never advanced, so there is no fenced producer to refuse (txn/init-bumps-the-epoch reports that)"@,
                        at,
                    ),
                )
            } else {
                let live = txn_flows::spec_actor(id, second);
                server_txn::spec_zombie_write(
                    tape,
                    at,
                    produced.conn,
                    versions,
                    zombie,
                    live,
                    second.conn,
                    produced.topic,
                )
            },
        },
    }
}

/// A write at a stale epoch.
#[verifier::rlimit(30)]
proof fn lemma_zombie_write(
    setting: Setting,
    tape: Seq<Event>,
    worlds: Seq<World>,
    at: int,
    leader: usize,
    versions: TxnVersions,
    zombie: TxnActorOf<Seq<char>>,
    live: TxnActorOf<Seq<char>>,
    successor: usize,
    topic: Seq<char>,
)
    requires
        trial::is_trial(ServerCheck::TxnFencedProducerCannotProduce, setting.faults),
        0 <= at <= tape.len(),
        conformance::is_modern(setting.schema),
        versions == conformance_txn::spoken(setting.schema),
        conformance::is_up(worlds[at].state),
        conformance::is_open(worlds[at], leader),
        conformance::is_open(worlds[at], successor),
        worlds[at].lines[leader as int].node_id == worlds[at].state.placement(topic),
        topic.len() > 0,
        zombie.producer_id >= 0,
        zombie.producer_epoch < live.producer_epoch,
        zombie.transactional_id == live.transactional_id,
        conformance_ends::is_claimed(worlds[at].state, live),
        worlds[at].state.logs.contains_key((topic, 0i32)),
        worlds[at].state.logs[(topic, 0i32)].last_batch.contains_key(zombie.producer_id),
        worlds[at].state.logs[(topic, 0i32)].last_batch[zombie.producer_id].base_sequence == 0,
        worlds[at].state.logs[(topic, 0i32)].last_batch[zombie.producer_id].next_sequence == 2,
        forall|i: int|
            at <= i < tape.len() ==> conformance::follows(
                setting,
                tape,
                worlds,
                i,
                server_txn::spec_zombie_write(
                    #[trigger] tape.take(i),
                    at,
                    leader,
                    versions,
                    zombie,
                    live,
                    successor,
                    topic,
                ),
            ),
    ensures
        trial::judged(
            setting.faults,
            server_txn::spec_zombie_write(
                tape,
                at,
                leader,
                versions,
                zombie,
                live,
                successor,
                topic,
            ),
        ),
{
    conformance::lemma_ranges(setting.schema);
    conformance::lemma_txn_ranges(setting.schema);
    assert(trial::spares(setting.faults, Deed::Write));
    assert(trial::spares(setting.faults, Deed::Shape));
    let stamp = batch::spec_transactional(zombie, 1);
    let version = versions.produce;
    conformance_txn::lemma_produce_stamped(
        setting,
        tape,
        worlds,
        at,
        leader,
        version,
        stamp,
        topic,
        1_280,
    );
    match txn_flows::spec_produce_stamped(tape, at, leader, version, stamp, topic, 1_280) {
        Ok((row, told)) => {
            let records = choose|records: Seq<u8>| #[trigger]
                conformance_txn::took(
                    setting,
                    worlds[at].state,
                    worlds[told].state,
                    topic,
                    stamp,
                    row,
                    records,
                );
            let first = (setting.batches)(records)->Some_0[0];
            assert(batch::is_probe_batch(first, stamp.spec_on_batch()));
            assert(log::first_batch((setting.batches)(records)->Some_0) == Some(first));
            conformance_txn::lemma_end_txn(
                setting,
                tape,
                worlds,
                told,
                successor,
                versions.end,
                live,
                false,
                1_299,
            );
        },
        Err(_) => {},
    }
}

#[verifier::rlimit(50)]
proof fn lemma_fenced_after(
    setting: Setting,
    ctx: ServerCtx,
    tape: Seq<Event>,
    worlds: Seq<World>,
    at: int,
    versions: TxnVersions,
    produced: ProducedView,
    id: Seq<char>,
    first: Claim,
    zombie: TxnActorOf<Seq<char>>,
)
    requires
        trial::is_trial(ServerCheck::TxnFencedProducerCannotProduce, setting.faults),
        0 <= at <= tape.len(),
        conformance::is_set(setting, ctx, worlds[at].state),
        versions == conformance_txn::spoken(setting.schema),
        conformance::is_open(worlds[at], produced.conn),
        conformance::is_open(worlds[at], first.conn),
        worlds[at].lines[produced.conn as int].node_id == worlds[at].state.placement(
            produced.topic,
        ),
        zombie == txn_flows::spec_actor(id, first),
        first.producer_epoch == 0,
        conformance_ends::is_claimed(worlds[at].state, zombie),
        conformance_ends::has_only_probe(worlds[at].state, produced.topic),
        forall|i: int|
            at <= i < tape.len() ==> conformance::follows(
                setting,
                tape,
                worlds,
                i,
                fenced_after(
                    ctx,
                    #[trigger] tape.take(i),
                    at,
                    versions,
                    produced,
                    id,
                    first,
                    zombie,
                ),
            ),
    ensures
        trial::judged(
            setting.faults,
            fenced_after(ctx, tape, at, versions, produced, id, first, zombie),
        ),
{
    conformance::lemma_ranges(setting.schema);
    conformance::lemma_txn_ranges(setting.schema);
    assert(trial::spares(setting.faults, Deed::Write));
    assert(trial::spares(setting.faults, Deed::Shape));
    assert(trial::spares(setting.faults, Deed::Stamp));
    assert(trial::spares(setting.faults, Deed::Find));
    let topic = produced.topic;
    conformance_ends::lemma_open_transaction(
        setting,
        ctx,
        tape,
        worlds,
        at,
        first.conn,
        produced.conn,
        versions,
        zombie,
        topic,
        1_220,
    );
    match txn_flows::spec_open_transaction(
        ctx,
        tape,
        at,
        first.conn,
        produced.conn,
        versions,
        zombie,
        topic,
        1_220,
    ) {
        Ok((_, wrote)) => {
            conformance_log::lemma_still_set(setting, ctx, worlds[at].state, worlds[wrote].state);
            conformance_log::lemma_same_placement(worlds[at].state, worlds[wrote].state, topic);
            conformance_txn::lemma_init_producer_id(
                setting,
                ctx,
                tape,
                worlds,
                wrote,
                versions.init,
                id,
                1_260,
            );
            match txn_flows::spec_init_producer_id(ctx, tape, wrote, versions.init, id, 1_260) {
                Ok((second, claimed)) => {
                    let live = txn_flows::spec_actor(id, second);
                    conformance_log::lemma_same_placement(
                        worlds[wrote].state,
                        worlds[claimed].state,
                        topic,
                    );
                    lemma_zombie_write(
                        setting,
                        tape,
                        worlds,
                        claimed,
                        produced.conn,
                        versions,
                        zombie,
                        live,
                        second.conn,
                        topic,
                    );
                },
                Err(_) => {},
            }
        },
        Err(_) => {},
    }
}

#[verifier::rlimit(40)]
pub proof fn lemma_txn_fenced_producer_cannot_produce(
    setting: Setting,
    ctx: ServerCtx,
    tape: Seq<Event>,
    worlds: Seq<World>,
)
    requires
        trial::is_trial(ServerCheck::TxnFencedProducerCannotProduce, setting.faults),
        conformance::is_set(setting, ctx, worlds[0].state),
        conformance_txn::has_ids(worlds[0].state),
        forall|i: int|
            0 <= i < tape.len() ==> conformance::follows(
                setting,
                tape,
                worlds,
                i,
                server_txn::spec_txn_fenced_producer_cannot_produce(ctx, #[trigger] tape.take(i)),
            ),
    ensures
        trial::judged(
            setting.faults,
            server_txn::spec_txn_fenced_producer_cannot_produce(ctx, tape),
        ),
{
    assert(trial::spares(setting.faults, Deed::Find));
    assert(trial::spares(setting.faults, Deed::Write));
    assert(trial::spares(setting.faults, Deed::Topic));
    assert(trial::spares(setting.faults, Deed::Cluster));
    conformance::lemma_ranges(setting.schema);
    conformance::lemma_txn_ranges(setting.schema);
    let versions = conformance_txn::spoken(setting.schema);
    assert(txn_flows::spec_txn_versions(ctx, 0) == Ok::<TxnVersions, HaltView>(versions));
    conformance_log::lemma_produce_flow(
        setting,
        ctx,
        tape,
        worlds,
        0,
        "txnzombie"@,
        Addressing::Name,
    );
    match flows::spec_produce_flow(ctx, tape, 0, "txnzombie"@, Addressing::Name) {
        Ok((produced, at)) => {
            conformance_txn::lemma_fresh_txn_id(setting, ctx, tape, worlds, at, "zombie"@);
            match ctx::spec_fresh_txn_id(ctx, tape, at, "zombie"@) {
                Ok((id, named)) => {
                    conformance_txn::lemma_init_producer_id(
                        setting,
                        ctx,
                        tape,
                        worlds,
                        named,
                        versions.init,
                        id,
                        1_200,
                    );
                    match txn_flows::spec_init_producer_id(
                        ctx,
                        tape,
                        named,
                        versions.init,
                        id,
                        1_200,
                    ) {
                        Ok((first, claimed)) => {
                            let zombie = txn_flows::spec_actor(id, first);
                            conformance_log::lemma_same_placement(
                                worlds[at].state,
                                worlds[claimed].state,
                                produced.topic,
                            );
                            lemma_fenced_after(
                                setting,
                                ctx,
                                tape,
                                worlds,
                                claimed,
                                versions,
                                produced,
                                id,
                                first,
                                zombie,
                            );
                        },
                        Err(_) => {},
                    }
                },
                Err(_) => {},
            }
        },
        Err(_) => {},
    }
}

/// What a transaction makes of an offset that it commits.
pub open spec fn pending_after(
    ctx: ServerCtx,
    tape: Seq<Event>,
    at: int,
    offsets_version: i16,
    commit_version: i16,
    end_version: i16,
    fetch_version: i16,
    offsets: usize,
    claim: Claim,
    actor: TxnActorOf<Seq<char>>,
    group: Seq<char>,
    produced: ProducedView,
) -> FlowView<VerdictView> {
    match tape::spec_doing(
        txn_flows::spec_add_offsets(
            tape,
            at,
            claim.conn,
            offsets_version,
            actor,
            group,
            1_080,
        ),
        "AddOffsetsToTxn"@,
    ) {
        Err(halt) => Err(halt),
        Ok((added, at)) => if !added.ok() {
            Err(
                tape::spec_fail(
                    "AddOffsetsToTxn answered "@ + added.shown@,
                    at,
                ),
            )
        } else {
            match tape::spec_doing(
                txn_flows::spec_txn_offset_commit(
                    tape,
                    at,
                    offsets,
                    commit_version,
                    actor,
                    group,
                    produced.topic,
                    server_txn::TXN_COMMITTED,
                    1_100,
                ),
                "TxnOffsetCommit"@,
            ) {
                Err(halt) => Err(halt),
                Ok((committed, at)) => match server_txn::spec_refused(committed) {
                    Some(code) => Err(
                            tape::spec_fail(
                                "TxnOffsetCommit answered "@
                                    + code.shown@,
                                at,
                            ),
                        ),
                    None => server_txn::spec_offsets_held(
                            ctx,
                            tape,
                            at,
                            offsets,
                            claim.conn,
                            end_version,
                            fetch_version,
                            actor,
                            group,
                            produced.topic,
                            produced.topic_id,
                        ),
                },
            }
        },
    }
}

/// Adding a group's offsets to a transaction.
proof fn lemma_add_offsets(
    setting: Setting,
    tape: Seq<Event>,
    worlds: Seq<World>,
    at: int,
    conn: usize,
    version: i16,
    actor: TxnActorOf<Seq<char>>,
    group: Seq<char>,
    correlation: i32,
)
    requires
        0 <= at <= tape.len(),
        conformance::is_modern(setting.schema),
        conformance::is_up(worlds[at].state),
        conformance::is_open(worlds[at], conn),
        setting.schema.add_offsets_to_txn.min <= version <= setting.schema.add_offsets_to_txn.max,
        conformance_ends::is_claimed(worlds[at].state, actor),
        at < tape.len() ==> conformance::follows(
            setting,
            tape,
            worlds,
            at,
            txn_flows::spec_add_offsets(
                tape.take(at),
                at,
                conn,
                version,
                actor,
                group,
                correlation,
            ),
        ),
    ensures
        match txn_flows::spec_add_offsets(tape, at, conn, version, actor, group, correlation) {
            Ok((code, to)) => {
                &&& to == at + 1 <= tape.len()
                &&& worlds[to] == worlds[at]
                &&& code.ok()
                &&& forall|i: int|
                    to <= i <= tape.len() ==> txn_flows::spec_add_offsets(
                        #[trigger] tape.take(i),
                        at,
                        conn,
                        version,
                        actor,
                        group,
                        correlation,
                    ) == Ok::<(ErrorCode, int), HaltView>((code, to))
            },
            Err(HaltView::Ask(_)) => at == tape.len(),
            _ => false,
        },
{
    conformance::lemma_txn_ranges(setting.schema);
    if at < tape.len() {
        assert(tape.take(at).len() == at);
    }
    let label = Label::Named("AddOffsetsToTxn"@);
    let request = RequestOf::AddOffsetsToTxn { actor, group };
    conformance::lemma_call(setting, tape, worlds, at, label, conn, version, correlation, request);
    match tape::spec_call(tape, at, label, ActionOf::Call { conn, version, correlation, request }) {
        Ok((Response::Code(code), to)) => {
            assert(worlds[to].lines =~= worlds[at].lines);
        },
        _ => {},
    }
}

/// Committing an offset inside a transaction.
proof fn lemma_txn_offset_commit(
    setting: Setting,
    tape: Seq<Event>,
    worlds: Seq<World>,
    at: int,
    conn: usize,
    version: i16,
    actor: TxnActorOf<Seq<char>>,
    group: Seq<char>,
    topic: Seq<char>,
    offset: i64,
    correlation: i32,
)
    requires
        0 <= at <= tape.len(),
        conformance::is_modern(setting.schema),
        conformance::is_up(worlds[at].state),
        conformance::is_open(worlds[at], conn),
        setting.schema.txn_offset_commit.min <= version <= setting.schema.txn_offset_commit.max,
        conformance_ends::is_claimed(worlds[at].state, actor),
        at < tape.len() ==> conformance::follows(
            setting,
            tape,
            worlds,
            at,
            txn_flows::spec_txn_offset_commit(
                tape.take(at),
                at,
                conn,
                version,
                actor,
                group,
                topic,
                offset,
                correlation,
            ),
        ),
    ensures
        match txn_flows::spec_txn_offset_commit(
            tape,
            at,
            conn,
            version,
            actor,
            group,
            topic,
            offset,
            correlation,
        ) {
            Ok((code, to)) => {
                &&& to == at + 1 <= tape.len()
                &&& worlds[to].lines == worlds[at].lines
                &&& code matches Some(said) && said.ok()
                &&& worlds[to].state == held(
                    setting.faults,
                    worlds[at].state,
                    actor.transactional_id,
                    (group, topic, 0i32),
                    CommitView { offset, metadata: None },
                )
                &&& forall|i: int|
                    to <= i <= tape.len() ==> txn_flows::spec_txn_offset_commit(
                        #[trigger] tape.take(i),
                        at,
                        conn,
                        version,
                        actor,
                        group,
                        topic,
                        offset,
                        correlation,
                    ) == Ok::<(Option<ErrorCode>, int), HaltView>((code, to))
            },
            Err(HaltView::Ask(_)) => at == tape.len(),
            _ => false,
        },
{
    conformance::lemma_txn_ranges(setting.schema);
    if at < tape.len() {
        assert(tape.take(at).len() == at);
    }
    let label = Label::Named("TxnOffsetCommit"@);
    let request = RequestOf::TxnOffsetCommit { actor, group, topic, offset };
    conformance::lemma_call(setting, tape, worlds, at, label, conn, version, correlation, request);
    let one = seq![
        CommitPartitionView {
            partition_index: 0,
            committed_offset: offset,
            committed_metadata: None,
        },
    ];
    assert(one.drop_last() =~= Seq::empty());
    reveal_with_fuel(txn::hold_partitions, 2);
    let all = seq![TxnOffsetTopicView { name: topic, partitions: one }];
    assert(all.drop_last() =~= Seq::empty());
    reveal_with_fuel(txn::hold_topics, 2);
    match tape::spec_call(tape, at, label, ActionOf::Call { conn, version, correlation, request }) {
        Ok((Response::Codes(codes), to)) => {
            assert(codes@[0]@[0].code == wire::NONE);
        },
        _ => {},
    }
}

/// A cluster that holds an offset for a transaction, or gives it out at once.
pub open spec fn held(
    faults: Seq<Fault>,
    state: ClusterView,
    id: Seq<char>,
    key: OffsetKey,
    commit: CommitView,
) -> ClusterView {
    if faults.contains(Fault::TxnOffsetsPublishImmediately) {
        ClusterView { committed: state.committed.insert(key, commit), ..state }
    } else {
        ClusterView {
            txns: state.txns.insert(
                id,
                TxnView {
                    pending_offsets: state.txns[id].pending_offsets.insert(key, commit),
                    ..state.txns[id]
                },
            ),
            ..state
        }
    }
}

/// The first look at an offset that was committed, where it is the only one.
proof fn lemma_seen_at_once(
    ctx: ServerCtx,
    tape: Seq<Event>,
    at: int,
    conn: usize,
    version: i16,
    group: Seq<char>,
    produced: ProducedView,
)
    requires
        match group_flows::spec_fetch_committed(
            tape,
            at,
            conn,
            version,
            group,
            produced.topic,
            produced.topic_id,
            ctx::spec_correlation(1_160, 0),
        ) {
            Ok((got, _)) => got == server_txn::TXN_COMMITTED,
            Err(halt) => halt is Ask,
        },
    ensures
        conformance::passed(
            server_txn::spec_await_txn_offset(
                ctx,
                tape,
                at,
                conn,
                version,
                group,
                produced.topic,
                produced.topic_id,
                0,
            ),
        ),
{
}

#[verifier::rlimit(50)]
proof fn lemma_offsets_held(
    setting: Setting,
    ctx: ServerCtx,
    tape: Seq<Event>,
    worlds: Seq<World>,
    at: int,
    conn: usize,
    claimed: usize,
    end_version: i16,
    fetch_version: i16,
    actor: TxnActorOf<Seq<char>>,
    group: Seq<char>,
    produced: ProducedView,
    before: ClusterView,
)
    requires
        trial::is_trial(ServerCheck::TxnOffsetsWaitForTheCommit, setting.faults),
        0 <= at <= tape.len(),
        conformance::is_modern(setting.schema),
        conformance::is_up(worlds[at].state),
        conformance::is_open(worlds[at], conn),
        conformance::is_open(worlds[at], claimed),
        setting.schema.end_txn.min <= end_version <= setting.schema.end_txn.max,
        setting.schema.offset_fetch.min <= fetch_version <= setting.schema.offset_fetch.max,
        conformance_ends::is_claimed(before, actor),
        conformance_members::is_known(before, produced),
        produced.topic_id@ != wire::zero_id(),
        !before.committed.contains_key((group, produced.topic, 0i32)),
        worlds[at].state == held(
            setting.faults,
            before,
            actor.transactional_id,
            (group, produced.topic, 0i32),
            CommitView { offset: server_txn::TXN_COMMITTED, metadata: None },
        ),
        forall|i: int|
            at <= i < tape.len() ==> conformance::follows(
                setting,
                tape,
                worlds,
                i,
                server_txn::spec_offsets_held(
                    ctx,
                    #[trigger] tape.take(i),
                    at,
                    conn,
                    claimed,
                    end_version,
                    fetch_version,
                    actor,
                    group,
                    produced.topic,
                    produced.topic_id,
                ),
            ),
    ensures
        trial::judged(
            setting.faults,
            server_txn::spec_offsets_held(
                ctx,
                tape,
                at,
                conn,
                claimed,
                end_version,
                fetch_version,
                actor,
                group,
                produced.topic,
                produced.topic_id,
            ),
        ),
{
    let key = (group, produced.topic, 0i32);
    conformance_members::lemma_fetch_committed(
        setting,
        tape,
        worlds,
        at,
        conn,
        fetch_version,
        group,
        1_120,
        produced,
    );
    match group_flows::spec_fetch_committed(
        tape,
        at,
        conn,
        fetch_version,
        group,
        produced.topic,
        produced.topic_id,
        1_120,
    ) {
        Ok((early, told)) => {
            if setting.faults.len() > 0 {
                conformance_txn::lemma_end_txn(
                    setting,
                    tape,
                    worlds,
                    told,
                    claimed,
                    end_version,
                    actor,
                    false,
                    1_139,
                );
            } else {
                conformance_txn::lemma_end_txn(
                    setting,
                    tape,
                    worlds,
                    told,
                    claimed,
                    end_version,
                    actor,
                    true,
                    1_140,
                );
                match txn_flows::spec_end_txn(
                    tape,
                    told,
                    claimed,
                    end_version,
                    actor,
                    true,
                    1_140,
                ) {
                    Ok((_, ended)) => {
                        let pending = worlds[told].state.txns[actor.transactional_id].pending_offsets;
                        assert(pending.contains_key(key));
                        assert(worlds[ended].state.committed.contains_key(key));
                        assert(worlds[ended].state.committed[key].offset
                            == server_txn::TXN_COMMITTED);
                        let correlation = ctx::spec_correlation(1_160, 0);
                        assert forall|i: int| ended <= i < tape.len() implies conformance::follows(
                            setting,
                            tape,
                            worlds,
                            i,
                            group_flows::spec_fetch_committed(
                                #[trigger] tape.take(i),
                                ended,
                                conn,
                                fetch_version,
                                group,
                                produced.topic,
                                produced.topic_id,
                                correlation,
                            ),
                        ) by {
                            assert(conformance::follows(
                                setting,
                                tape,
                                worlds,
                                i,
                                server_txn::spec_offsets_held(
                                    ctx,
                                    tape.take(i),
                                    at,
                                    conn,
                                    claimed,
                                    end_version,
                                    fetch_version,
                                    actor,
                                    group,
                                    produced.topic,
                                    produced.topic_id,
                                ),
                            ));
                        }
                        conformance_members::lemma_fetch_committed(
                            setting,
                            tape,
                            worlds,
                            ended,
                            conn,
                            fetch_version,
                            group,
                            correlation,
                            produced,
                        );
                        lemma_seen_at_once(
                            ctx,
                            tape,
                            ended,
                            conn,
                            fetch_version,
                            group,
                            produced,
                        );
                    },
                    Err(_) => {},
                }
            }
        },
        Err(_) => {},
    }
}

#[verifier::rlimit(50)]
proof fn lemma_pending_after(
    setting: Setting,
    ctx: ServerCtx,
    tape: Seq<Event>,
    worlds: Seq<World>,
    at: int,
    offsets_version: i16,
    commit_version: i16,
    end_version: i16,
    fetch_version: i16,
    conn: usize,
    claim: Claim,
    actor: TxnActorOf<Seq<char>>,
    group: Seq<char>,
    produced: ProducedView,
)
    requires
        trial::is_trial(ServerCheck::TxnOffsetsWaitForTheCommit, setting.faults),
        0 <= at <= tape.len(),
        conformance::is_modern(setting.schema),
        conformance::is_up(worlds[at].state),
        conformance::is_open(worlds[at], conn),
        conformance::is_open(worlds[at], claim.conn),
        setting.schema.add_offsets_to_txn.min <= offsets_version
            <= setting.schema.add_offsets_to_txn.max,
        setting.schema.txn_offset_commit.min <= commit_version
            <= setting.schema.txn_offset_commit.max,
        setting.schema.end_txn.min <= end_version <= setting.schema.end_txn.max,
        setting.schema.offset_fetch.min <= fetch_version <= setting.schema.offset_fetch.max,
        conformance_ends::is_claimed(worlds[at].state, actor),
        conformance_members::is_known(worlds[at].state, produced),
        produced.topic_id@ != wire::zero_id(),
        !worlds[at].state.committed.contains_key((group, produced.topic, 0i32)),
        forall|i: int|
            at <= i < tape.len() ==> conformance::follows(
                setting,
                tape,
                worlds,
                i,
                pending_after(
                    ctx,
                    #[trigger] tape.take(i),
                    at,
                    offsets_version,
                    commit_version,
                    end_version,
                    fetch_version,
                    conn,
                    claim,
                    actor,
                    group,
                    produced,
                ),
            ),
    ensures
        trial::judged(
            setting.faults,
            pending_after(
                ctx,
                tape,
                at,
                offsets_version,
                commit_version,
                end_version,
                fetch_version,
                conn,
                claim,
                actor,
                group,
                produced,
            ),
        ),
{
    if at < tape.len() {
        assert(tape.take(at).len() == at);
    }
    lemma_add_offsets(
        setting,
        tape,
        worlds,
        at,
        claim.conn,
        offsets_version,
        actor,
        group,
        1_080,
    );
    match txn_flows::spec_add_offsets(
        tape,
        at,
        claim.conn,
        offsets_version,
        actor,
        group,
        1_080,
    ) {
        Ok((_, added)) => {
            if added < tape.len() {
                assert(tape.take(added).len() == added);
            }
            let offset = server_txn::TXN_COMMITTED;
            lemma_txn_offset_commit(
                setting,
                tape,
                worlds,
                added,
                conn,
                commit_version,
                actor,
                group,
                produced.topic,
                offset,
                1_100,
            );
            match txn_flows::spec_txn_offset_commit(
                tape,
                added,
                conn,
                commit_version,
                actor,
                group,
                produced.topic,
                offset,
                1_100,
            ) {
                Ok((_, kept)) => {
                    lemma_offsets_held(
                        setting,
                        ctx,
                        tape,
                        worlds,
                        kept,
                        conn,
                        claim.conn,
                        end_version,
                        fetch_version,
                        actor,
                        group,
                        produced,
                        worlds[at].state,
                    );
                },
                Err(_) => {},
            }
        },
        Err(_) => {},
    }
}

#[verifier::rlimit(60)]
pub proof fn lemma_txn_offsets_wait_for_the_commit(
    setting: Setting,
    ctx: ServerCtx,
    tape: Seq<Event>,
    worlds: Seq<World>,
)
    requires
        trial::is_trial(ServerCheck::TxnOffsetsWaitForTheCommit, setting.faults),
        conformance::is_set(setting, ctx, worlds[0].state),
        conformance_txn::has_ids(worlds[0].state),
        forall|i: int|
            0 <= i < tape.len() ==> conformance::follows(
                setting,
                tape,
                worlds,
                i,
                server_txn::spec_txn_offsets_wait_for_the_commit(ctx, #[trigger] tape.take(i)),
            ),
    ensures
        trial::judged(
            setting.faults,
            server_txn::spec_txn_offsets_wait_for_the_commit(ctx, tape),
        ),
{
    assert(trial::spares(setting.faults, Deed::Find));
    assert(trial::spares(setting.faults, Deed::Write));
    assert(trial::spares(setting.faults, Deed::Topic));
    assert(trial::spares(setting.faults, Deed::Cluster));
    conformance::lemma_ranges(setting.schema);
    conformance::lemma_group_ranges(setting.schema);
    conformance::lemma_txn_ranges(setting.schema);
    let versions = conformance_txn::spoken(setting.schema);
    let schema = setting.schema;
    assert(txn_flows::spec_txn_versions(ctx, 0) == Ok::<TxnVersions, HaltView>(versions));
    assert(server_groups::spec_offsets_versions(ctx, 0) == Ok::<(i16, i16), HaltView>(
        (schema.offset_commit.max, schema.offset_fetch.max),
    ));
    let group = ctx.spec_check_group("txnoffsets"@);
    conformance_log::lemma_produce_flow(
        setting,
        ctx,
        tape,
        worlds,
        0,
        "txnoffsets"@,
        Addressing::Name,
    );
    match flows::spec_produce_flow(ctx, tape, 0, "txnoffsets"@, Addressing::Name) {
        Ok((produced, at)) => {
            conformance_txn::lemma_fresh_txn_id(setting, ctx, tape, worlds, at, "txnoffsets"@);
            match ctx::spec_fresh_txn_id(ctx, tape, at, "txnoffsets"@) {
                Ok((id, named)) => {
                    conformance_groups::lemma_coordinator_conn(
                        setting,
                        ctx,
                        tape,
                        worlds,
                        named,
                        group,
                    );
                    match group_flows::spec_coordinator_conn(ctx, tape, named, group) {
                        Ok((conn, found)) => {
                            conformance_members::lemma_await_topic(
                                setting,
                                ctx,
                                tape,
                                worlds,
                                found,
                                conn,
                                produced.topic,
                                1_055,
                            );
                            match group_flows::spec_await_topic_known(
                                ctx,
                                tape,
                                found,
                                conn,
                                produced.topic,
                                1_055,
                            ) {
                                Ok((_, known)) => {
                                    conformance_txn::lemma_init_producer_id(
                                        setting,
                                        ctx,
                                        tape,
                                        worlds,
                                        known,
                                        versions.init,
                                        id,
                                        1_060,
                                    );
                                    match txn_flows::spec_init_producer_id(
                                        ctx,
                                        tape,
                                        known,
                                        versions.init,
                                        id,
                                        1_060,
                                    ) {
                                        Ok((claim, claimed)) => {
                                            lemma_pending_after(
                                                setting,
                                                ctx,
                                                tape,
                                                worlds,
                                                claimed,
                                                conformance_txn::lesser(
                                                    schema.add_offsets_to_txn.max,
                                                    server_txn::ADD_OFFSETS_CLIENT_MAX,
                                                ),
                                                conformance_txn::lesser(
                                                    schema.txn_offset_commit.max,
                                                    server_txn::TXN_OFFSET_COMMIT_CLIENT_MAX,
                                                ),
                                                versions.end,
                                                schema.offset_fetch.max,
                                                conn,
                                                claim,
                                                txn_flows::spec_actor(id, claim),
                                                group,
                                                produced,
                                            );
                                        },
                                        Err(_) => {},
                                    }
                                },
                                Err(_) => {},
                            }
                        },
                        Err(_) => {},
                    }
                },
                Err(_) => {},
            }
        },
        Err(_) => {},
    }
}

} // verus!

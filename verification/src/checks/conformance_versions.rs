//! Runs of the check that speaks every version that is advertised.

use vstd::prelude::*;
use vstd::string::*;

use crate::checks::batch;
use crate::checks::conformance;
use crate::checks::conformance::{Setting, World};
use crate::checks::conformance_basic;
use crate::checks::conformance_groups;
use crate::checks::conformance_log;
use crate::checks::conformance_members;
use crate::checks::conformance_reads;
use crate::checks::ctx;
use crate::checks::ctx::ServerCtx;
use crate::checks::flows;
use crate::checks::flows::{Addressing, ProducedView};
use crate::checks::group_flows;
use crate::checks::server::ServerCheck;
use crate::checks::server_versions;
use crate::checks::tape;
use crate::checks::tape::{ActionOf, Event, FlowView, HaltView, Label};
use crate::checks::trial;
use crate::checks::trial::Deed;
use crate::checks::txn_flows;
use crate::subject::serve;
use crate::subject::state::ClusterView;
use crate::text;
use crate::wire;
use crate::wire::{RequestOf, TopicOf, CREATE_TOPICS, FETCH, OFFSET_COMMIT, PRODUCE};
use crate::VerdictView;

verus! {

/// What the sweep leaves as it was: the brokers, and a topic that is written
/// to, which its leader holds a log of.
pub open spec fn is_kept(before: ClusterView, after: ClusterView, produced: ProducedView) -> bool {
    &&& after.ports == before.ports
    &&& after.down == before.down
    &&& after.created == before.created
    &&& after.topic_names == before.topic_names
    &&& after.logs.contains_key((produced.topic, 0i32))
}

/// Whether a topic can be swept: it is up, and known by name and by id.
pub open spec fn is_ready(state: ClusterView, produced: ProducedView) -> bool {
    &&& conformance::is_up(state)
    &&& produced.topic.len() > 0
    &&& produced.topic_id@ != wire::zero_id()
    &&& state.created.contains_key(produced.topic)
    &&& conformance_members::is_known(state, produced)
    &&& state.logs.contains_key((produced.topic, 0i32))
}

/// Writing at a version that is answered out of shape.
#[verifier::rlimit(30)]
proof fn lemma_misshapen(
    setting: Setting,
    tape: Seq<Event>,
    worlds: Seq<World>,
    at: int,
    conn: usize,
    topic: Seq<char>,
    correlation: i32,
)
    requires
        setting.faults.len() > 0,
        trial::is_trial(ServerCheck::VersionsAdvertisedAreSpeakable, setting.faults),
        0 <= at <= tape.len(),
        conformance::is_modern(setting.schema),
        conformance::is_up(worlds[at].state),
        conformance::is_open(worlds[at], conn),
        setting.schema.produce.min <= serve::MISSHAPEN_VERSION <= setting.schema.produce.max,
        worlds[at].lines[conn as int].node_id == worlds[at].state.placement(topic),
        topic.len() > 0,
        forall|i: int|
            at <= i < tape.len() ==> conformance::follows(
                setting,
                tape,
                worlds,
                i,
                txn_flows::spec_produce_stamped(
                    #[trigger] tape.take(i),
                    at,
                    conn,
                    serve::MISSHAPEN_VERSION,
                    batch::spec_plain_stamp(),
                    topic,
                    correlation,
                ),
            ),
    ensures
        match txn_flows::spec_produce_stamped(
            tape,
            at,
            conn,
            serve::MISSHAPEN_VERSION,
            batch::spec_plain_stamp(),
            topic,
            correlation,
        ) {
            Ok(_) => false,
            Err(HaltView::Ask(_)) => true,
            Err(HaltView::Broke(error, to)) => {
                &&& at <= to <= tape.len()
                &&& conformance::extends(worlds[at], worlds[to])
                &&& ({
                    let (before, after) = (worlds[at].state, worlds[to].state);
                    &&& after == (ClusterView { logs: after.logs, ..before })
                    &&& after.logs.contains_key((topic, 0i32))
                })
                &&& forall|i: int|
                    to <= i <= tape.len() ==> txn_flows::spec_produce_stamped(
                        #[trigger] tape.take(i),
                        at,
                        conn,
                        serve::MISSHAPEN_VERSION,
                        batch::spec_plain_stamp(),
                        topic,
                        correlation,
                    ) == Err::<(wire::ProducedRow, int), HaltView>(HaltView::Broke(error, to))
            },
            _ => false,
        },
{
    conformance::lemma_ranges(setting.schema);
    let version = serve::MISSHAPEN_VERSION;
    let stamp = batch::spec_plain_stamp();
    let label = Label::Named("transactional batch"@);
    conformance_log::lemma_encode(setting, tape, worlds, at, label, stamp.spec_on_batch());
    match tape::spec_encode(tape, at, label, ActionOf::Encode { stamp: stamp.spec_on_batch() }) {
        Ok((records, encoded)) => {
            let state = worlds[encoded].state;
            let request = RequestOf::Produce {
                topic: TopicOf::Name(topic),
                partition: 0,
                acks: flows::ALL_REPLICAS,
                transactional_id: None,
                records: records@,
            };
            let sent = crate::subject::requests::ProducePartitionView {
                index: 0,
                records: Some(records@),
                batches: (setting.batches)(records@),
                rewritten: (setting.rewritten)(records@),
            };
            let asked = crate::subject::requests::ProduceTopicView {
                name: topic,
                topic_id: wire::zero_id(),
                partitions: seq![sent],
            };
            conformance_log::lemma_produced_one(
                setting.faults,
                state,
                None,
                flows::ALL_REPLICAS,
                asked,
                sent,
                topic,
                worlds[encoded].lines[conn as int].node_id,
            );
            if encoded < tape.len() {
                assert(tape.take(encoded).len() == encoded);
                reveal(conformance::performs);
                assert(worlds[encoded + 1].lines =~= worlds[encoded].lines);
            }
            conformance::lemma_misframed(
                setting,
                tape,
                worlds,
                encoded,
                Label::Named("Produce"@),
                conn,
                version,
                correlation,
                request,
            );
        },
        Err(_) => {},
    }
}

/// The sweep of Produce's versions, from one of them on.
#[verifier::rlimit(60)]
proof fn lemma_sweep_produce(
    setting: Setting,
    ctx: ServerCtx,
    tape: Seq<Event>,
    worlds: Seq<World>,
    at: int,
    produced: ProducedView,
    versions: Seq<i16>,
    n: int,
    failures: Seq<Seq<char>>,
)
    requires
        trial::is_trial(ServerCheck::VersionsAdvertisedAreSpeakable, setting.faults),
        0 <= at <= tape.len(),
        0 <= n <= versions.len(),
        conformance::is_set(setting, ctx, worlds[at].state),
        is_ready(worlds[at].state, produced),
        conformance_log::is_home(worlds[at].state, produced.topic, produced.addr),
        forall|j: int|
            0 <= j < versions.len() ==> setting.schema.produce.min <= #[trigger] versions[j]
                <= setting.schema.produce.max,
        forall|i: int|
            at <= i < tape.len() ==> conformance::follows(
                setting,
                tape,
                worlds,
                i,
                server_versions::spec_sweep_produce(
                    #[trigger] tape.take(i),
                    at,
                    produced.addr,
                    produced.topic,
                    versions,
                    n,
                    failures,
                ),
            ),
    ensures
        match server_versions::spec_sweep_produce(
            tape,
            at,
            produced.addr,
            produced.topic,
            versions,
            n,
            failures,
        ) {
            Ok((found, to)) => {
                &&& at <= to <= tape.len()
                &&& is_ready(worlds[to].state, produced)
                &&& conformance::is_set(setting, ctx, worlds[to].state)
                &&& is_kept(worlds[at].state, worlds[to].state, produced)
                &&& conformance_log::is_home(worlds[to].state, produced.topic, produced.addr)
                &&& setting.faults.len() == 0 ==> found == failures
                &&& found.len() >= failures.len()
                &&& setting.faults.len() > 0 && versions.skip(n).contains(
                    serve::MISSHAPEN_VERSION,
                ) ==> found.len() > failures.len()
                &&& forall|i: int|
                    to <= i <= tape.len() ==> server_versions::spec_sweep_produce(
                        #[trigger] tape.take(i),
                        at,
                        produced.addr,
                        produced.topic,
                        versions,
                        n,
                        failures,
                    ) == Ok::<(Seq<Seq<char>>, int), HaltView>((found, to))
            },
            Err(HaltView::Ask(_)) => true,
            _ => false,
        },
    decreases versions.len() - n,
{
    if n < versions.len() {
        let version = versions[n];
        let topic = produced.topic;
        let stamp = batch::spec_plain_stamp();
        let correlation = server_versions::spec_sweep_correlation(1_600, version, 1);
        let state = worlds[at].state;
        conformance_log::lemma_still_home(state, state, topic, produced.addr);
        if at < tape.len() {
            assert(tape.take(at).len() == at);
        }
        conformance::lemma_connect(setting, tape, worlds, at, produced.addr);
        match tape::spec_connect(tape, at, produced.addr) {
            Ok((conn, found)) => {
                let broken = setting.faults.len() > 0 && version == serve::MISSHAPEN_VERSION;
                if broken {
                    lemma_misshapen(setting, tape, worlds, found, conn, topic, correlation);
                } else {
                    lemma_shapely(setting, tape, worlds, found, conn, version, topic, correlation);
                }
                match txn_flows::spec_produce_stamped(
                    tape,
                    found,
                    conn,
                    version,
                    stamp,
                    topic,
                    correlation,
                ) {
                    Ok((_, told)) => {
                        let after = worlds[told].state;
                        conformance_log::lemma_still_set(setting, ctx, state, after);
                        conformance_log::lemma_still_home(
                            state,
                            after,
                            produced.topic,
                            produced.addr,
                        );
                        lemma_sweep_produce(
                            setting,
                            ctx,
                            tape,
                            worlds,
                            told,
                            produced,
                            versions,
                            n + 1,
                            failures,
                        );
                        lemma_skipped(versions, n);
                    },
                    Err(HaltView::Broke(error, told)) => {
                        let after = worlds[told].state;
                        conformance_log::lemma_still_set(setting, ctx, state, after);
                        conformance_log::lemma_still_home(
                            state,
                            after,
                            produced.topic,
                            produced.addr,
                        );
                        lemma_sweep_produce(
                            setting,
                            ctx,
                            tape,
                            worlds,
                            told,
                            produced,
                            versions,
                            n + 1,
                            failures.push(
                                "Produce v"@ + text::dec(version as int) + ": "@
                                    + error.spec_details(),
                            ),
                        );
                    },
                    Err(_) => {},
                }
            },
            Err(_) => {},
        }
    }
}

/// What is past one version is it, or past the next.
proof fn lemma_skipped(versions: Seq<i16>, n: int)
    requires
        0 <= n < versions.len(),
    ensures
        forall|v: i16|
            versions[n] != v && #[trigger] versions.skip(n).contains(v) ==> versions.skip(
                n + 1,
            ).contains(v),
{
    assert forall|v: i16| versions[n] != v && #[trigger] versions.skip(n).contains(
        v,
    ) implies versions.skip(n + 1).contains(v) by {
        let j = choose|j: int| 0 <= j < versions.skip(n).len() && versions.skip(n)[j] == v;
        assert(versions.skip(n + 1)[j - 1] == v);
    }
}

/// Writing at a version that is answered in shape.
#[verifier::rlimit(30)]
proof fn lemma_shapely(
    setting: Setting,
    tape: Seq<Event>,
    worlds: Seq<World>,
    at: int,
    conn: usize,
    version: i16,
    topic: Seq<char>,
    correlation: i32,
)
    requires
        trial::is_trial(ServerCheck::VersionsAdvertisedAreSpeakable, setting.faults),
        setting.faults.len() == 0 || version != serve::MISSHAPEN_VERSION,
        0 <= at <= tape.len(),
        conformance::is_modern(setting.schema),
        conformance::is_up(worlds[at].state),
        conformance::is_open(worlds[at], conn),
        setting.schema.produce.min <= version <= setting.schema.produce.max,
        worlds[at].lines[conn as int].node_id == worlds[at].state.placement(topic),
        topic.len() > 0,
        forall|i: int|
            at <= i < tape.len() ==> conformance::follows(
                setting,
                tape,
                worlds,
                i,
                txn_flows::spec_produce_stamped(
                    #[trigger] tape.take(i),
                    at,
                    conn,
                    version,
                    batch::spec_plain_stamp(),
                    topic,
                    correlation,
                ),
            ),
    ensures
        match txn_flows::spec_produce_stamped(
            tape,
            at,
            conn,
            version,
            batch::spec_plain_stamp(),
            topic,
            correlation,
        ) {
            Ok((row, to)) => {
                &&& at <= to <= tape.len()
                &&& conformance::extends(worlds[at], worlds[to])
                &&& ({
                    let (before, after) = (worlds[at].state, worlds[to].state);
                    &&& after == (ClusterView { logs: after.logs, ..before })
                    &&& after.logs.contains_key((topic, 0i32))
                })
                &&& forall|i: int|
                    to <= i <= tape.len() ==> txn_flows::spec_produce_stamped(
                        #[trigger] tape.take(i),
                        at,
                        conn,
                        version,
                        batch::spec_plain_stamp(),
                        topic,
                        correlation,
                    ) == Ok::<(wire::ProducedRow, int), HaltView>((row, to))
            },
            Err(HaltView::Ask(_)) => true,
            _ => false,
        },
{
    let stamp = batch::spec_plain_stamp();
    let label = Label::Named("transactional batch"@);
    assert(trial::spares(setting.faults, Deed::Write));
    assert(setting.faults.len() == 0 ==> trial::spares(setting.faults, Deed::Shape));
    conformance_log::lemma_encode(setting, tape, worlds, at, label, stamp.spec_on_batch());
    match tape::spec_encode(tape, at, label, ActionOf::Encode { stamp: stamp.spec_on_batch() }) {
        Ok((records, encoded)) => {
            conformance_log::lemma_produce(
                setting,
                tape,
                worlds,
                encoded,
                Label::Named("Produce"@),
                conn,
                version,
                correlation,
                TopicOf::Name(topic),
                0,
                flows::ALL_REPLICAS,
                None,
                records@,
                topic,
            );
        },
        Err(_) => {},
    }
}

/// The sweep of Fetch's versions, from one of them on.
#[verifier::rlimit(40)]
proof fn lemma_sweep_fetch(
    setting: Setting,
    ctx: ServerCtx,
    tape: Seq<Event>,
    worlds: Seq<World>,
    at: int,
    produced: ProducedView,
    versions: Seq<i16>,
    n: int,
)
    requires
        trial::spares(setting.faults, Deed::Read),
        0 <= at <= tape.len(),
        0 <= n <= versions.len(),
        conformance::is_set(setting, ctx, worlds[at].state),
        is_ready(worlds[at].state, produced),
        conformance::is_heard(worlds[at].state, produced.addr),
        forall|j: int|
            0 <= j < versions.len() ==> setting.schema.fetch.min <= #[trigger] versions[j]
                <= setting.schema.fetch.max,
        forall|i: int|
            at <= i < tape.len() ==> conformance::follows(
                setting,
                tape,
                worlds,
                i,
                server_versions::spec_sweep_fetch(
                    #[trigger] tape.take(i),
                    at,
                    produced.addr,
                    produced.topic_id,
                    versions,
                    n,
                    Seq::empty(),
                ),
            ),
    ensures
        match server_versions::spec_sweep_fetch(
            tape,
            at,
            produced.addr,
            produced.topic_id,
            versions,
            n,
            Seq::empty(),
        ) {
            Ok((found, to)) => {
                &&& at <= to <= tape.len()
                &&& worlds[to].state == worlds[at].state
                &&& found.len() == 0
                &&& forall|i: int|
                    to <= i <= tape.len() ==> server_versions::spec_sweep_fetch(
                        #[trigger] tape.take(i),
                        at,
                        produced.addr,
                        produced.topic_id,
                        versions,
                        n,
                        Seq::empty(),
                    ) == Ok::<(Seq<Seq<char>>, int), HaltView>((found, to))
            },
            Err(HaltView::Ask(_)) => true,
            _ => false,
        },
    decreases versions.len() - n,
{
    if n < versions.len() {
        let version = versions[n];
        let correlation = server_versions::spec_sweep_correlation(1_640, version, 1);
        if at < tape.len() {
            assert(tape.take(at).len() == at);
        }
        conformance::lemma_connect(setting, tape, worlds, at, produced.addr);
        match tape::spec_connect(tape, at, produced.addr) {
            Ok((conn, found)) => {
                conformance_reads::lemma_fetch(
                    setting,
                    tape,
                    worlds,
                    found,
                    Label::Named("Fetch"@),
                    conn,
                    version,
                    correlation,
                    TopicOf::Id(produced.topic_id),
                    0,
                    500,
                    0,
                    4_194_304,
                    wire::READ_UNCOMMITTED,
                    produced.topic,
                );
                match server_versions::spec_sweep_fetch_by_id(
                    tape,
                    found,
                    conn,
                    version,
                    produced.topic_id,
                    correlation,
                ) {
                    Ok((_, told)) => {
                        lemma_sweep_fetch(
                            setting,
                            ctx,
                            tape,
                            worlds,
                            told,
                            produced,
                            versions,
                            n + 1,
                        );
                    },
                    Err(_) => {},
                }
            },
            Err(_) => {},
        }
    }
}

/// The sweep of OffsetCommit's versions, from one of them on.
#[verifier::rlimit(40)]
proof fn lemma_sweep_commit(
    setting: Setting,
    ctx: ServerCtx,
    tape: Seq<Event>,
    worlds: Seq<World>,
    at: int,
    group: Seq<char>,
    produced: ProducedView,
    versions: Seq<i16>,
    n: int,
)
    requires
        trial::spares(setting.faults, Deed::Find),
        0 <= at <= tape.len(),
        0 <= n <= versions.len(),
        conformance::is_set(setting, ctx, worlds[at].state),
        conformance_members::is_known(worlds[at].state, produced),
        forall|j: int|
            0 <= j < versions.len() ==> setting.schema.offset_commit.min <= #[trigger] versions[j]
                <= setting.schema.offset_commit.max,
        forall|i: int|
            at <= i < tape.len() ==> conformance::follows(
                setting,
                tape,
                worlds,
                i,
                server_versions::spec_sweep_commit(
                    ctx,
                    #[trigger] tape.take(i),
                    at,
                    group,
                    produced.topic,
                    produced.topic_id,
                    versions,
                    n,
                    Seq::empty(),
                ),
            ),
    ensures
        match server_versions::spec_sweep_commit(
            ctx,
            tape,
            at,
            group,
            produced.topic,
            produced.topic_id,
            versions,
            n,
            Seq::empty(),
        ) {
            Ok((found, to)) => {
                &&& at <= to <= tape.len()
                &&& worlds[to].state == (ClusterView {
                    committed: worlds[to].state.committed,
                    ..worlds[at].state
                })
                &&& found.len() == 0
                &&& forall|i: int|
                    to <= i <= tape.len() ==> server_versions::spec_sweep_commit(
                        ctx,
                        #[trigger] tape.take(i),
                        at,
                        group,
                        produced.topic,
                        produced.topic_id,
                        versions,
                        n,
                        Seq::empty(),
                    ) == Ok::<(Seq<Seq<char>>, int), HaltView>((found, to))
            },
            Err(HaltView::Ask(_)) => true,
            _ => false,
        },
    decreases versions.len() - n,
{
    if n < versions.len() {
        let version = versions[n];
        let correlation = server_versions::spec_sweep_correlation(1_680, version, 1);
        conformance_groups::lemma_coordinator_conn(setting, ctx, tape, worlds, at, group);
        match tape::spec_doing(
            group_flows::spec_coordinator_conn(ctx, tape, at, group),
            "locating the group coordinator"@,
        ) {
            Ok((conn, found)) => {
                conformance_members::lemma_commit(
                    setting,
                    tape,
                    worlds,
                    found,
                    Label::Named("OffsetCommit"@),
                    conn,
                    version,
                    correlation,
                    group,
                    1,
                    None,
                    produced,
                );
                match server_versions::spec_sweep_offset_commit(
                    tape,
                    found,
                    conn,
                    version,
                    group,
                    produced.topic,
                    produced.topic_id,
                    correlation,
                ) {
                    Ok((_, told)) => {
                        conformance_log::lemma_still_set(
                            setting,
                            ctx,
                            worlds[at].state,
                            worlds[told].state,
                        );
                        lemma_sweep_commit(
                            setting,
                            ctx,
                            tape,
                            worlds,
                            told,
                            group,
                            produced,
                            versions,
                            n + 1,
                        );
                    },
                    Err(_) => {},
                }
            },
            Err(_) => {},
        }
    }
}

/// The sweep of CreateTopics's versions, from one of them on.
#[verifier::rlimit(40)]
proof fn lemma_sweep_create(
    setting: Setting,
    ctx: ServerCtx,
    tape: Seq<Event>,
    worlds: Seq<World>,
    at: int,
    versions: Seq<i16>,
    n: int,
)
    requires
        trial::spares(setting.faults, Deed::Cluster),
        trial::spares(setting.faults, Deed::Topic),
        0 <= at <= tape.len(),
        0 <= n <= versions.len(),
        conformance::is_set(setting, ctx, worlds[at].state),
        forall|j: int|
            0 <= j < versions.len() ==> setting.schema.create_topics.min <= #[trigger] versions[j]
                <= setting.schema.create_topics.max,
        forall|i: int|
            at <= i < tape.len() ==> conformance::follows(
                setting,
                tape,
                worlds,
                i,
                server_versions::spec_sweep_create(
                    ctx,
                    #[trigger] tape.take(i),
                    at,
                    versions,
                    n,
                    Seq::empty(),
                ),
            ),
    ensures
        match server_versions::spec_sweep_create(ctx, tape, at, versions, n, Seq::empty()) {
            Ok((found, to)) => {
                &&& at <= to <= tape.len()
                &&& found.len() == 0
            },
            Err(HaltView::Ask(_)) => true,
            _ => false,
        },
    decreases versions.len() - n,
{
    if n < versions.len() {
        let version = versions[n];
        let tag = "sweepct"@ + text::dec(version as int);
        let correlation = server_versions::spec_sweep_correlation(1_720, version, 4);
        if at < tape.len() {
            assert(tape.take(at).len() == at);
        }
        conformance::lemma_connect(setting, tape, worlds, at, ctx.addr@);
        match tape::spec_connect(tape, at, ctx.addr@) {
            Ok((conn, found)) => {
                conformance::lemma_fresh_topic(setting, ctx, tape, worlds, found, tag);
                match ctx::spec_fresh_topic(ctx, tape, found, tag) {
                    Ok((name, named)) => {
                        conformance_basic::lemma_create_topic(
                            setting,
                            ctx,
                            tape,
                            worlds,
                            named,
                            conn,
                            version,
                            name,
                            true,
                            correlation,
                        );
                        match flows::spec_create_topic(
                            ctx,
                            tape,
                            named,
                            conn,
                            version,
                            name,
                            true,
                            correlation,
                        ) {
                            Ok((_, told)) => {
                                conformance_log::lemma_still_set(
                                    setting,
                                    ctx,
                                    worlds[at].state,
                                    worlds[told].state,
                                );
                                lemma_sweep_create(
                                    setting,
                                    ctx,
                                    tape,
                                    worlds,
                                    told,
                                    versions,
                                    n + 1,
                                );
                            },
                            Err(_) => {},
                        }
                    },
                    Err(_) => {},
                }
            },
            Err(_) => {},
        }
    }
}

/// The four sweeps, once the topic is written to.
pub open spec fn swept(
    ctx: ServerCtx,
    tape: Seq<Event>,
    at: int,
    produced: ProducedView,
) -> FlowView<VerdictView> {
    match server_versions::spec_produce_section(
        ctx,
        tape,
        at,
        produced,
        server_versions::spec_empty_sweep(),
    ) {
        Err(halt) => Err(halt),
        Ok((sweep, at)) => match server_versions::spec_fetch_section(
            ctx,
            tape,
            at,
            produced,
            sweep,
        ) {
            Err(halt) => Err(halt),
            Ok((sweep, at)) => match server_versions::spec_commit_section(
                ctx,
                tape,
                at,
                produced,
                sweep,
            ) {
                Err(halt) => Err(halt),
                Ok((sweep, at)) => match server_versions::spec_create_section(
                    ctx,
                    tape,
                    at,
                    sweep,
                ) {
                    Err(halt) => Err(halt),
                    Ok((sweep, at)) => Ok((server_versions::spec_judge_sweep(sweep), at)),
                },
            },
        },
    }
}

#[verifier::rlimit(80)]
#[verifier::spinoff_prover]
proof fn lemma_swept(
    setting: Setting,
    ctx: ServerCtx,
    tape: Seq<Event>,
    worlds: Seq<World>,
    at: int,
    produced: ProducedView,
)
    requires
        trial::is_trial(ServerCheck::VersionsAdvertisedAreSpeakable, setting.faults),
        setting.faults.len() > 0 ==> setting.schema.produce.min <= serve::MISSHAPEN_VERSION,
        0 <= at <= tape.len(),
        conformance::is_set(setting, ctx, worlds[at].state),
        is_ready(worlds[at].state, produced),
        conformance_log::is_home(worlds[at].state, produced.topic, produced.addr),
        forall|i: int|
            at <= i < tape.len() ==> conformance::follows(
                setting,
                tape,
                worlds,
                i,
                swept(ctx, #[trigger] tape.take(i), at, produced),
            ),
    ensures
        trial::judged(setting.faults, swept(ctx, tape, at, produced)),
{
    assert(trial::spares(setting.faults, Deed::Read));
    assert(trial::spares(setting.faults, Deed::Find));
    assert(trial::spares(setting.faults, Deed::Topic));
    assert(trial::spares(setting.faults, Deed::Cluster));
    conformance::lemma_ranges(setting.schema);
    conformance::lemma_group_ranges(setting.schema);
    let schema = setting.schema;
    let oldest = if schema.produce.min >= server_versions::PRODUCE_RECORD_BATCH_MIN {
        schema.produce.min
    } else {
        server_versions::PRODUCE_RECORD_BATCH_MIN
    };
    let newest = if schema.produce.max <= flows::PRODUCE_NAME_MAX {
        schema.produce.max
    } else {
        flows::PRODUCE_NAME_MAX
    };
    let writes = ctx::version_run(oldest, newest);
    let no_failure = Seq::<Seq<char>>::empty();
    assert(ctx.spec_pick_all(
        "Produce"@,
        PRODUCE,
        server_versions::PRODUCE_RECORD_BATCH_MIN,
        flows::PRODUCE_NAME_MAX,
    ) == Ok::<Seq<i16>, VerdictView>(writes));
    if setting.faults.len() > 0 {
        assert(writes.skip(0)[serve::MISSHAPEN_VERSION - oldest] == serve::MISSHAPEN_VERSION);
        assert(writes.skip(0).contains(serve::MISSHAPEN_VERSION));
    }
    let reads = ctx::version_run(flows::FETCH_ID_MIN, schema.fetch.max);
    assert(ctx.spec_pick_all("Fetch"@, FETCH, flows::FETCH_ID_MIN, schema.fetch.max) == Ok::<
        Seq<i16>,
        VerdictView,
    >(reads));
    let commits = ctx::version_run(schema.offset_commit.min, schema.offset_commit.max);
    assert(ctx.spec_pick_all(
        "OffsetCommit"@,
        OFFSET_COMMIT,
        schema.offset_commit.min,
        schema.offset_commit.max,
    ) == Ok::<Seq<i16>, VerdictView>(commits));
    let creates = ctx::version_run(schema.create_topics.min, schema.create_topics.max);
    assert(ctx.spec_pick_all(
        "CreateTopics"@,
        CREATE_TOPICS,
        schema.create_topics.min,
        schema.create_topics.max,
    ) == Ok::<Seq<i16>, VerdictView>(creates));
    let group = ctx.spec_check_group("sweep"@);
    lemma_sweep_produce(setting, ctx, tape, worlds, at, produced, writes, 0, no_failure);
    match server_versions::spec_sweep_produce(
        tape,
        at,
        produced.addr,
        produced.topic,
        writes,
        0,
        no_failure,
    ) {
        Ok((unwritten, wrote)) => {
            conformance_log::lemma_still_home(
                worlds[wrote].state,
                worlds[wrote].state,
                produced.topic,
                produced.addr,
            );
            lemma_sweep_fetch(setting, ctx, tape, worlds, wrote, produced, reads, 0);
            match server_versions::spec_sweep_fetch(
                tape,
                wrote,
                produced.addr,
                produced.topic_id,
                reads,
                0,
                no_failure,
            ) {
                Ok((unread, read)) => {
                    lemma_sweep_commit(
                        setting,
                        ctx,
                        tape,
                        worlds,
                        read,
                        group,
                        produced,
                        commits,
                        0,
                    );
                    match server_versions::spec_sweep_commit(
                        ctx,
                        tape,
                        read,
                        group,
                        produced.topic,
                        produced.topic_id,
                        commits,
                        0,
                        no_failure,
                    ) {
                        Ok((_, told)) => {
                            conformance_log::lemma_still_set(
                                setting,
                                ctx,
                                worlds[read].state,
                                worlds[told].state,
                            );
                            lemma_sweep_create(setting, ctx, tape, worlds, told, creates, 0);
                        },
                        Err(_) => {},
                    }
                },
                Err(_) => {},
            }
        },
        Err(_) => {},
    }
}

pub proof fn lemma_versions_advertised_are_speakable(
    setting: Setting,
    ctx: ServerCtx,
    tape: Seq<Event>,
    worlds: Seq<World>,
)
    requires
        trial::is_trial(ServerCheck::VersionsAdvertisedAreSpeakable, setting.faults),
        setting.faults.len() > 0 ==> setting.schema.produce.min <= serve::MISSHAPEN_VERSION,
        conformance::is_set(setting, ctx, worlds[0].state),
        forall|i: int|
            0 <= i < tape.len() ==> conformance::follows(
                setting,
                tape,
                worlds,
                i,
                server_versions::spec_versions_advertised_are_speakable(
                    ctx,
                    #[trigger] tape.take(i),
                ),
            ),
    ensures
        trial::judged(
            setting.faults,
            server_versions::spec_versions_advertised_are_speakable(ctx, tape),
        ),
{
    assert(trial::spares(setting.faults, Deed::Write));
    assert(trial::spares(setting.faults, Deed::Topic));
    assert(trial::spares(setting.faults, Deed::Cluster));
    assert(trial::spares(setting.faults, Deed::Read));
    assert(trial::spares(setting.faults, Deed::Find));
    conformance::lemma_ranges(setting.schema);
    conformance::lemma_group_ranges(setting.schema);
    conformance_log::lemma_produce_flow(setting, ctx, tape, worlds, 0, "sweep"@, Addressing::Name);
    match flows::spec_produce_flow(ctx, tape, 0, "sweep"@, Addressing::Name) {
        Ok((produced, at)) => {
            lemma_swept(setting, ctx, tape, worlds, at, produced);
        },
        Err(_) => {},
    }
}

} // verus!

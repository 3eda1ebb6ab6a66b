//! Runs of the checks that produce.

use vstd::prelude::*;
use vstd::string::*;

use crate::checks::asks;
use crate::checks::calibration;
use crate::checks::calibration_txn;
use crate::checks::conformance;
use crate::checks::conformance::{Setting, World};
use crate::checks::ctx;
use crate::checks::ctx::ServerCtx;
use crate::checks::find;
use crate::checks::flows;
use crate::checks::flows::{Addressing, LegOf, ProducedView};
use crate::checks::server::ServerCheck;
use crate::checks::server_log;
use crate::checks::tape;
use crate::checks::tape::{ActionOf, BatchStamp, Event, FlowView, HaltView, Label};
use crate::checks::trial;
use crate::checks::trial::Deed;
use crate::subject::Fault;
use crate::subject::log;
use crate::subject::replies::{ProduceReplyView, ProducedPartition, ProducedTopicView};
use crate::subject::requests::{
    MetadataAskView, NamedTopicView, ProduceAskView, ProducePartitionView, ProduceTopicView,
};
use crate::subject::serve;
use crate::subject::state;
use crate::subject::state::{ClusterView, LogView};
use crate::subject::topics;
use crate::wire;
use crate::wire::{MetadataAnswer, ProducedRow, RequestOf, Response, TopicOf};

verus! {

/// Whether the broker in some place leads a topic.
pub open spec fn leads(state: ClusterView, topic: Seq<char>, k: int) -> bool {
    0 <= k < state.ports.len() && state::spec_node_at(k) == state.placement(topic)
}

/// A filter that everything gets through.
proof fn lemma_all_pass(ids: Seq<i32>, up: spec_fn(i32) -> bool)
    requires
        forall|i: int| 0 <= i < ids.len() ==> up(#[trigger] ids[i]),
    ensures
        ids.filter(up) =~= ids,
    decreases ids.len(),
{
    reveal(Seq::filter);
    if ids.len() > 0 {
        lemma_all_pass(ids.drop_last(), up);
    }
}

/// Every broker of a cluster that is up is live.
pub proof fn lemma_all_live(state: ClusterView)
    requires
        state.down == Set::<i32>::empty(),
    ensures
        state.live() == state.node_ids(),
{
    lemma_all_pass(state.node_ids(), |id: i32| !state.down.contains(id));
}

/// Where the subject's Metadata says that the leader of a topic is.
pub proof fn lemma_leader_address(
    faults: Seq<Fault>,
    state: ClusterView,
    answer: MetadataAnswer,
    topic: Seq<char>,
    correlation: i32,
    node_id: i32,
) -> (k: int)
    requires
        trial::spares(faults, Deed::Topic),
        conformance::is_up(state),
        state.created.contains_key(topic),
        conformance::shows_cluster(
            answer,
            topics::spec_metadata(
                state,
                MetadataAskView { topics: Some(seq![NamedTopicView { name: Some(topic) }]) },
                correlation,
                node_id,
                faults,
            ),
        ),
    ensures
        0 <= k < state.ports.len(),
        state::spec_node_at(k) == state.placement(topic),
        find::spec_leader_address(answer, topic) == Some(conformance::address_of(state.ports[k])),
        find::sound_partition(answer, topic) matches Some(row) && row.leader_id
            == state.placement(topic),
{
    lemma_some_live(state);
    lemma_all_live(state);
    reveal_strlit("127.0.0.1");
    let k = lemma_placed(state, topic);
    calibration::lemma_one_name(topic);
    let names = seq![topic];
    assert(names.drop_last() =~= Seq::empty());
    reveal_with_fuel(topics::answered_names, 2);
    let reply = topics::spec_metadata(
        state,
        MetadataAskView { topics: Some(seq![NamedTopicView { name: Some(topic) }]) },
        correlation,
        node_id,
        faults,
    );
    assert(
        reply.topics =~= seq![topics::spec_topic(state, topic, correlation, node_id, faults)]
    );
    let entry = answer.topics@[0];
    assert(find::is_named(topic)(entry));
    assert(answer.topics@[0].partitions@[0].index == 0);
    assert(find::is_partition(0)(entry.partitions@[0]));
    let leader = state.placement(topic);
    calibration::lemma_first_where(answer.brokers@, find::has_node(leader));
    let brokers = topics::spec_brokers(state, faults);
    assert(answer.brokers@[k].node_id == brokers[k].node_id);
    assert(find::has_node(leader)(answer.brokers@[k]));
    let row = find::first_where(answer.brokers@, find::has_node(leader))->Some_0;
    let j = choose|j: int| 0 <= j < answer.brokers@.len() && answer.brokers@[j] == row;
    assert(answer.brokers@[j].node_id == brokers[j].node_id);
    assert(j == k);
    assert(1 <= state.ports[k] <= 65535);
    k
}

/// A cluster that is up has a broker that is.
pub proof fn lemma_some_live(state: ClusterView)
    requires
        conformance::is_up(state),
    ensures
        state.live().len() > 0,
{
    let up = |id: i32| !state.down.contains(id);
    let ids = state.node_ids();
    assert(up(ids[0]));
    ids.lemma_filter_contains(up, 0);
    assert(state.live().contains(ids[0]));
}

/// The place of the broker that a name is placed on.
pub proof fn lemma_placed(state: ClusterView, name: Seq<char>) -> (k: int)
    requires
        state.live().len() > 0,
    ensures
        0 <= k < state.ports.len(),
        state::spec_node_at(k) == state.placement(name),
        !state.down.contains(state.placement(name)),
{
    let ids = state.node_ids();
    crate::subject::laws::law_placed_on_a_live_broker(state, name);
    choose|k: int| 0 <= k < ids.len() && ids[k] == state.placement(name)
}

/// A Metadata request that names the leader of a topic.
pub proof fn lemma_metadata_leader(
    setting: Setting,
    tape: Seq<Event>,
    worlds: Seq<World>,
    at: int,
    bootstrap: usize,
    version: i16,
    topic: Seq<char>,
    correlation: i32,
)
    requires
        trial::spares(setting.faults, Deed::Topic),
        0 <= at <= tape.len(),
        conformance::is_modern(setting.schema),
        conformance::is_up(worlds[at].state),
        conformance::is_open(worlds[at], bootstrap),
        worlds[at].state.created.contains_key(topic),
        setting.schema.metadata.min <= version <= setting.schema.metadata.max,
        forall|i: int|
            at <= i < tape.len() ==> conformance::follows(
                setting,
                tape,
                worlds,
                i,
                flows::spec_metadata(
                    #[trigger] tape.take(i),
                    at,
                    bootstrap,
                    version,
                    Some(topic),
                    correlation,
                ),
            ),
    ensures
        match flows::spec_metadata(tape, at, bootstrap, version, Some(topic), correlation) {
            Ok((answer, to)) => {
                &&& at <= to <= tape.len()
                &&& to == at + 1
                &&& worlds[to] == worlds[at]
                &&& exists|k: int| leads(
                    worlds[at].state,
                    topic,
                    k,
                ) && find::spec_leader_address(answer, topic) == Some(
                    conformance::address_of(worlds[at].state.ports[k]),
                )
                &&& forall|i: int|
                    to <= i <= tape.len() ==> flows::spec_metadata(
                        #[trigger] tape.take(i),
                        at,
                        bootstrap,
                        version,
                        Some(topic),
                        correlation,
                    )
                        == Ok::<(MetadataAnswer, int), HaltView>((answer, to))
            },
            Err(HaltView::Ask(_)) => true,
            _ => false,
        },
{
    conformance::lemma_ranges(setting.schema);
    if at < tape.len() {
        assert(tape.take(at).len() == at);
    }
    conformance::lemma_metadata(
        setting,
        tape,
        worlds,
        at,
        Label::Named("Metadata"@),
        bootstrap,
        version,
        Some(topic),
        correlation,
    );
    match flows::spec_metadata(tape, at, bootstrap, version, Some(topic), correlation) {
        Ok((answer, to)) => {
            let k = lemma_leader_address(
                setting.faults,
                worlds[at].state,
                answer,
                topic,
                correlation,
                worlds[at].lines[bootstrap as int].node_id,
            );
            assert(leads(worlds[at].state, topic, k));
        },
        Err(_) => {},
    }
}

/// The first attempt at finding the broker that leads a topic; what comes of
/// one that finds none is left out.
pub open spec fn sought(
    tape: Seq<Event>,
    at: int,
    bootstrap: usize,
    version: i16,
    topic: Seq<char>,
    correlation: i32,
) -> FlowView<(usize, Seq<char>)> {
    match flows::spec_metadata(tape, at, bootstrap, version, Some(topic), correlation) {
        Err(halt) => Err(halt),
        Ok((answer, at)) => match find::spec_leader_address(answer, topic) {
            Some(addr) => flows::spec_dial(tape, at, addr),
            None => Err(tape::spec_astray(at)),
        },
    }
}

/// Whether the broker that leads a topic listens at an address.
pub open spec fn is_home(state: ClusterView, topic: Seq<char>, addr: Seq<char>) -> bool {
    exists|k: int| #[trigger]
        conformance::listens(state, k, addr) && state::spec_node_at(k) == state.placement(topic)
}

/// It goes on listening there while the brokers stay.
pub proof fn lemma_still_home(a: ClusterView, b: ClusterView, topic: Seq<char>, addr: Seq<char>)
    requires
        a.ports == b.ports,
        a.down == b.down,
        is_home(a, topic, addr),
    ensures
        is_home(b, topic, addr),
        conformance::is_heard(b, addr),
        a.placement(topic) == b.placement(topic),
{
    lemma_same_placement(a, b, topic);
    let k = choose|k: int| #[trigger]
        conformance::listens(a, k, addr) && state::spec_node_at(k) == a.placement(topic);
    assert(conformance::listens(b, k, addr));
}

/// The first attempt is the only one where it finds a broker.
proof fn lemma_sought(
    ctx: ServerCtx,
    tape: Seq<Event>,
    at: int,
    bootstrap: usize,
    version: i16,
    topic: Seq<char>,
    base: i32,
)
    requires
        flows::spec_metadata(
            tape,
            at,
            bootstrap,
            version,
            Some(topic),
            ctx::spec_correlation(base, 0),
        ) matches Ok((answer, _)) ==> find::spec_leader_address(answer, topic) is Some,
    ensures
        flows::spec_connect_to_leader(ctx, tape, at, bootstrap, version, topic, base, 0)
            == sought(tape, at, bootstrap, version, topic, ctx::spec_correlation(base, 0)),
{
}

proof fn lemma_dial(
    setting: Setting,
    tape: Seq<Event>,
    worlds: Seq<World>,
    at: int,
    addr: Seq<char>,
)
    requires
        0 <= at <= tape.len(),
        conformance::is_up(worlds[at].state),
        conformance::is_heard(worlds[at].state, addr),
        forall|i: int|
            at <= i < tape.len() ==> conformance::follows(
                setting,
                tape,
                worlds,
                i,
                flows::spec_dial(#[trigger] tape.take(i), at, addr),
            ),
    ensures
        match flows::spec_dial(tape, at, addr) {
            Ok((dialed, to)) => {
                &&& at <= to <= tape.len()
                &&& to == at + 1
                &&& dialed.1 == addr
                &&& worlds[to].state == worlds[at].state
                &&& conformance::extends(worlds[at], worlds[to])
                &&& conformance::is_open(worlds[to], dialed.0)
                &&& worlds[to].lines[dialed.0 as int].queued.len() == 0
                &&& forall|k: int| #[trigger] conformance::listens(
                    worlds[at].state,
                    k,
                    addr,
                ) ==> worlds[to].lines[dialed.0 as int].node_id == state::spec_node_at(k)
                &&& forall|i: int|
                    to <= i <= tape.len() ==> flows::spec_dial(#[trigger] tape.take(i), at, addr)
                        == Ok::<((usize, Seq<char>), int), HaltView>((dialed, to))
            },
            Err(HaltView::Ask(_)) => true,
            _ => false,
        },
{
    if at < tape.len() {
        assert(tape.take(at).len() == at);
    }
    conformance::lemma_connect(setting, tape, worlds, at, addr);
}

/// The first attempt finds the broker.
proof fn lemma_sought_leader(
    setting: Setting,
    tape: Seq<Event>,
    worlds: Seq<World>,
    at: int,
    bootstrap: usize,
    version: i16,
    topic: Seq<char>,
    correlation: i32,
)
    requires
        trial::spares(setting.faults, Deed::Topic),
        0 <= at <= tape.len(),
        conformance::is_modern(setting.schema),
        conformance::is_up(worlds[at].state),
        conformance::is_open(worlds[at], bootstrap),
        worlds[at].state.created.contains_key(topic),
        setting.schema.metadata.min <= version <= setting.schema.metadata.max,
        forall|i: int|
            at <= i < tape.len() ==> conformance::follows(
                setting,
                tape,
                worlds,
                i,
                sought(#[trigger] tape.take(i), at, bootstrap, version, topic, correlation),
            ),
    ensures
        match sought(tape, at, bootstrap, version, topic, correlation) {
            Ok((dialed, to)) => {
                &&& at <= to <= tape.len()
                &&& worlds[to].state == worlds[at].state
                &&& conformance::extends(worlds[at], worlds[to])
                &&& conformance::is_open(worlds[to], dialed.0)
                &&& worlds[to].lines[dialed.0 as int].queued.len() == 0
                &&& worlds[to].lines[dialed.0 as int].node_id == worlds[at].state.placement(topic)
                &&& conformance::is_heard(worlds[at].state, dialed.1)
                &&& is_home(worlds[at].state, topic, dialed.1)
                &&& forall|i: int|
                    to <= i <= tape.len() ==> sought(
                        #[trigger] tape.take(i),
                        at,
                        bootstrap,
                        version,
                        topic,
                        correlation,
                    )
                        == Ok::<((usize, Seq<char>), int), HaltView>((dialed, to))
            },
            Err(HaltView::Ask(_)) => true,
            _ => false,
        },
{
    lemma_metadata_leader(setting, tape, worlds, at, bootstrap, version, topic, correlation);
    match flows::spec_metadata(tape, at, bootstrap, version, Some(topic), correlation) {
        Ok((answer, to)) => {
            let state = worlds[at].state;
            let k = choose|k: int|
                leads(state, topic, k) && find::spec_leader_address(answer, topic) == Some(
                    conformance::address_of(state.ports[k]),
                );
            let addr = conformance::address_of(state.ports[k]);
            assert(conformance::listens(state, k, addr));
            assert(conformance::is_heard(state, addr));
            assert(is_home(state, topic, addr));
            assert forall|i: int| to <= i < tape.len() implies conformance::follows(
                setting,
                tape,
                worlds,
                i,
                flows::spec_dial(#[trigger] tape.take(i), to, addr),
            ) by {
                assert(sought(tape.take(i), at, bootstrap, version, topic, correlation)
                    == flows::spec_dial(tape.take(i), to, addr));
            }
            lemma_dial(setting, tape, worlds, to, addr);
            assert forall|i: int| to <= i <= tape.len() implies sought(
                #[trigger] tape.take(i),
                at,
                bootstrap,
                version,
                topic,
                correlation,
            ) == flows::spec_dial(tape.take(i), to, addr) by {}
        },
        Err(_) => {},
    }
}

/// Metadata names a leader that can be found, however much of the tape is
/// looked at.
proof fn lemma_leader_named(
    setting: Setting,
    ctx: ServerCtx,
    tape: Seq<Event>,
    worlds: Seq<World>,
    at: int,
    bootstrap: usize,
    version: i16,
    topic: Seq<char>,
    base: i32,
)
    requires
        trial::spares(setting.faults, Deed::Topic),
        0 <= at <= tape.len(),
        conformance::is_modern(setting.schema),
        conformance::is_up(worlds[at].state),
        conformance::is_open(worlds[at], bootstrap),
        worlds[at].state.created.contains_key(topic),
        setting.schema.metadata.min <= version <= setting.schema.metadata.max,
        forall|i: int|
            at <= i < tape.len() ==> conformance::follows(
                setting,
                tape,
                worlds,
                i,
                flows::spec_connect_to_leader(
                    ctx,
                    #[trigger] tape.take(i),
                    at,
                    bootstrap,
                    version,
                    topic,
                    base,
                    0,
                ),
            ),
    ensures
        flows::spec_metadata(
            tape,
            at,
            bootstrap,
            version,
            Some(topic),
            ctx::spec_correlation(base, 0),
        ) matches Ok((answer, _)) ==> find::spec_leader_address(answer, topic) is Some,
        forall|i: int|
            at <= i <= tape.len() ==> (flows::spec_metadata(
                #[trigger] tape.take(i),
                at,
                bootstrap,
                version,
                Some(topic),
                ctx::spec_correlation(base, 0),
            ) matches Ok((answer, _)) ==> find::spec_leader_address(answer, topic) is Some),
{
    let correlation = ctx::spec_correlation(base, 0);
    lemma_metadata_leader(setting, tape, worlds, at, bootstrap, version, topic, correlation);
}

/// A connection to the broker that leads a topic.
pub proof fn lemma_leader(
    setting: Setting,
    ctx: ServerCtx,
    tape: Seq<Event>,
    worlds: Seq<World>,
    at: int,
    bootstrap: usize,
    version: i16,
    topic: Seq<char>,
    base: i32,
)
    requires
        trial::spares(setting.faults, Deed::Topic),
        0 <= at <= tape.len(),
        conformance::is_modern(setting.schema),
        conformance::is_up(worlds[at].state),
        conformance::is_open(worlds[at], bootstrap),
        worlds[at].state.created.contains_key(topic),
        setting.schema.metadata.min <= version <= setting.schema.metadata.max,
        forall|i: int|
            at <= i < tape.len() ==> conformance::follows(
                setting,
                tape,
                worlds,
                i,
                flows::spec_connect_to_leader(
                    ctx,
                    #[trigger] tape.take(i),
                    at,
                    bootstrap,
                    version,
                    topic,
                    base,
                    0,
                ),
            ),
    ensures
        match flows::spec_connect_to_leader(ctx, tape, at, bootstrap, version, topic, base, 0) {
            Ok((dialed, to)) => {
                &&& at <= to <= tape.len()
                &&& worlds[to].state == worlds[at].state
                &&& conformance::extends(worlds[at], worlds[to])
                &&& conformance::is_open(worlds[to], dialed.0)
                &&& worlds[to].lines[dialed.0 as int].queued.len() == 0
                &&& worlds[to].lines[dialed.0 as int].node_id == worlds[at].state.placement(topic)
                &&& conformance::is_heard(worlds[at].state, dialed.1)
                &&& is_home(worlds[at].state, topic, dialed.1)
                &&& forall|i: int|
                    to <= i <= tape.len() ==> flows::spec_connect_to_leader(
                        ctx,
                        #[trigger] tape.take(i),
                        at,
                        bootstrap,
                        version,
                        topic,
                        base,
                        0,
                    )
                        == Ok::<((usize, Seq<char>), int), HaltView>((dialed, to))
            },
            Err(HaltView::Ask(_)) => true,
            _ => false,
        },
{
    let correlation = ctx::spec_correlation(base, 0);
    lemma_leader_named(setting, ctx, tape, worlds, at, bootstrap, version, topic, base);
    assert forall|i: int| at <= i < tape.len() implies conformance::follows(
        setting,
        tape,
        worlds,
        i,
        sought(#[trigger] tape.take(i), at, bootstrap, version, topic, correlation),
    ) by {
        lemma_sought(ctx, tape.take(i), at, bootstrap, version, topic, base);
    }
    lemma_sought_leader(setting, tape, worlds, at, bootstrap, version, topic, correlation);
    lemma_sought(ctx, tape, at, bootstrap, version, topic, base);
    assert forall|i: int| at <= i <= tape.len() implies flows::spec_connect_to_leader(
        ctx,
        #[trigger] tape.take(i),
        at,
        bootstrap,
        version,
        topic,
        base,
        0,
    ) == sought(tape.take(i), at, bootstrap, version, topic, correlation) by {
        lemma_sought(ctx, tape.take(i), at, bootstrap, version, topic, base);
    }
}

/// What a write of one record set to one partition does and answers, at the
/// broker that leads it.
pub proof fn lemma_produced_one(
    faults: Seq<Fault>,
    state: ClusterView,
    transactional_id: Option<Seq<char>>,
    acks: i16,
    topic: ProduceTopicView,
    partition: ProducePartitionView,
    name: Seq<char>,
    node_id: i32,
)
    requires
        topic.partitions == seq![partition],
        log::produced_name(state, topic, faults) == Some(name),
        partition.batches is Some,
        state.placement(name) == node_id || faults.contains(Fault::AnyBrokerAcceptsWrites),
    ensures
        ({
            let (log, answer) = log::spec_write(
                log::log_of(state, name, partition.index),
                partition,
                log::spec_terms(state, transactional_id, name, partition.index),
                faults,
            );
            answer matches Some(row) && log::spec_produce(
                state,
                ProduceAskView { transactional_id, acks, topics: seq![topic] },
                node_id,
                faults,
            ) == (
                ClusterView { logs: state.logs.insert((name, partition.index), log), ..state },
                Some(
                    ProduceReplyView {
                        responses: seq![
                            ProducedTopicView {
                                name: topic.name,
                                topic_id: topic.topic_id,
                                partitions: seq![row],
                            },
                        ],
                    },
                ),
            )
        }),
{
    let one = seq![partition];
    assert(one.drop_last() =~= Seq::empty());
    reveal_with_fuel(log::produce_partitions, 2);
    let (after, row) = log::spec_produce_partition(
        state,
        Some(name),
        transactional_id,
        partition,
        node_id,
        faults,
    );
    assert(Seq::<ProducedPartition>::empty().push(row->Some_0) =~= seq![row->Some_0]);
    assert(log::produce_partitions(state, Some(name), transactional_id, one, node_id, faults) == (
        after,
        Some(seq![row->Some_0]),
    ));
    let all = seq![topic];
    assert(all.drop_last() =~= Seq::empty());
    reveal_with_fuel(log::produce_topics, 2);
    let made = ProducedTopicView {
        name: topic.name,
        topic_id: topic.topic_id,
        partitions: seq![row->Some_0],
    };
    assert(Seq::<ProducedTopicView>::empty().push(made) =~= seq![made]);
}

/// What the leader makes of a record set for a partition of a topic.
pub open spec fn written(
    setting: Setting,
    state: ClusterView,
    name: Seq<char>,
    partition: i32,
    transactional_id: Option<Seq<char>>,
    records: Seq<u8>,
) -> (LogView, Option<ProducedPartition>) {
    log::spec_write(
        log::log_of(state, name, partition),
        ProducePartitionView {
            index: partition,
            records: Some(records),
            batches: (setting.batches)(records),
            rewritten: (setting.rewritten)(records),
        },
        log::spec_terms(state, transactional_id, name, partition),
        setting.faults,
    )
}

/// A Produce request to the broker that leads the topic.
pub proof fn lemma_produce(
    setting: Setting,
    tape: Seq<Event>,
    worlds: Seq<World>,
    at: int,
    label: Label<Seq<char>>,
    conn: usize,
    version: i16,
    correlation: i32,
    topic: TopicOf<Seq<char>>,
    partition: i32,
    acks: i16,
    transactional_id: Option<Seq<char>>,
    records: Seq<u8>,
    name: Seq<char>,
)
    requires
        trial::spares(setting.faults, Deed::Shape) || version != serve::MISSHAPEN_VERSION,
        trial::spares(setting.faults, Deed::Write),
        0 <= at <= tape.len(),
        conformance::is_modern(setting.schema),
        conformance::is_served(worlds[at], conn),
        setting.schema.produce.min <= version <= setting.schema.produce.max,
        acks != 0,
        worlds[at].lines[conn as int].node_id == worlds[at].state.placement(name)
            || setting.faults.contains(Fault::AnyBrokerAcceptsWrites),
        worlds[at].state.resolve(
            conformance::spelled(topic).0,
            conformance::spelled(topic).1,
        ) == Some(name),
        (setting.batches)(records) is Some,
        forall|i: int|
            at <= i < tape.len() ==> conformance::follows(
                setting,
                tape,
                worlds,
                i,
                asks::spec_ask_produce(
                    #[trigger] tape.take(i),
                    at,
                    label,
                    ActionOf::Call {
                        conn,
                        version,
                        correlation,
                        request: RequestOf::Produce {
                            topic,
                            partition,
                            acks,
                            transactional_id,
                            records,
                        },
                    },
                ),
            ),
    ensures
        match asks::spec_ask_produce(
            tape,
            at,
            label,
            ActionOf::Call {
                conn,
                version,
                correlation,
                request: RequestOf::Produce { topic, partition, acks, transactional_id, records },
            },
        ) {
            Ok((rows, to)) => {
                &&& at <= to <= tape.len()
                &&& to == at + 1
                &&& conformance::extends(worlds[at], worlds[to])
                &&& ({
                    let (log, answer) = written(
                        setting,
                        worlds[at].state,
                        name,
                        partition,
                        transactional_id,
                        records,
                    );
                    &&& worlds[to].state == (ClusterView {
                        logs: worlds[at].state.logs.insert((name, partition), log),
                        ..worlds[at].state
                    })
                    &&& find::first_of_first(rows@) matches Some(row) && calibration_txn::shows_written(row, answer)
                })
                &&& forall|i: int|
                    to <= i <= tape.len() ==> asks::spec_ask_produce(
                        #[trigger] tape.take(i),
                        at,
                        label,
                        ActionOf::Call {
                            conn,
                            version,
                            correlation,
                            request: RequestOf::Produce {
                                topic,
                                partition,
                                acks,
                                transactional_id,
                                records,
                            },
                        },
                    )
                        == Ok::<(Vec<Vec<ProducedRow>>, int), HaltView>((rows, to))
            },
            Err(HaltView::Ask(_)) => true,
            _ => false,
        },
{
    conformance::lemma_ranges(setting.schema);
    let sent = ProducePartitionView {
        index: partition,
        records: Some(records),
        batches: (setting.batches)(records),
        rewritten: (setting.rewritten)(records),
    };
    let asked = ProduceTopicView {
        name: conformance::spelled(topic).0,
        topic_id: conformance::spelled(topic).1,
        partitions: seq![sent],
    };
    lemma_produced_one(
        setting.faults,
        worlds[at].state,
        transactional_id,
        acks,
        asked,
        sent,
        name,
        worlds[at].lines[conn as int].node_id,
    );
    if at < tape.len() {
        assert(tape.take(at).len() == at);
    }
    let request = RequestOf::Produce { topic, partition, acks, transactional_id, records };
    conformance::lemma_call(setting, tape, worlds, at, label, conn, version, correlation, request);
    match tape::spec_call(tape, at, label, ActionOf::Call { conn, version, correlation, request }) {
        Ok((Response::Produce(rows), to)) => {
            assert(rows@[0]@[0].error.code == rows@[0]@[0].error.code);
        },
        _ => {},
    }
}

/// The probe batch, encoded.
pub proof fn lemma_encode(
    setting: Setting,
    tape: Seq<Event>,
    worlds: Seq<World>,
    at: int,
    label: Label<Seq<char>>,
    stamp: BatchStamp,
)
    requires
        0 <= at <= tape.len(),
        forall|i: int|
            at <= i < tape.len() ==> conformance::follows(
                setting,
                tape,
                worlds,
                i,
                tape::spec_encode(#[trigger] tape.take(i), at, label, ActionOf::Encode { stamp }),
            ),
    ensures
        match tape::spec_encode(tape, at, label, ActionOf::Encode { stamp }) {
            Ok((bytes, to)) => {
                &&& at <= to <= tape.len()
                &&& to == at + 1
                &&& worlds[to] == worlds[at]
                &&& conformance::encodes_probe(setting, bytes@, stamp)
                &&& forall|i: int|
                    to <= i <= tape.len() ==> tape::spec_encode(
                        #[trigger] tape.take(i),
                        at,
                        label,
                        ActionOf::Encode { stamp },
                    )
                        == Ok::<(Vec<u8>, int), HaltView>((bytes, to))
            },
            Err(HaltView::Ask(_)) => true,
            _ => false,
        },
{
    reveal(conformance::performs);
    if at < tape.len() {
        assert(tape.take(at).len() == at);
    }
}

/// A name is placed by the brokers that are up, and by nothing else.
pub proof fn lemma_same_placement(a: ClusterView, b: ClusterView, name: Seq<char>)
    requires
        a.ports == b.ports,
        a.down == b.down,
    ensures
        a.placement(name) == b.placement(name),
{
    assert(a.node_ids() =~= b.node_ids());
    assert((|id: i32| !a.down.contains(id)) =~= (|id: i32| !b.down.contains(id)));
}

/// The offset that the first write to a log is said to be at.
pub open spec fn first_offset(faults: Seq<Fault>) -> i64 {
    if faults.contains(Fault::ProduceWrongBaseOffset) {
        1
    } else {
        0
    }
}

/// A topic as the produce flow leaves it: led by the broker that a connection
/// goes to, with one probe batch in its log.
pub open spec fn holds_probe(setting: Setting, world: World, produced: ProducedView) -> bool {
    let state = world.state;
    &&& conformance::is_up(state)
    &&& conformance::is_open(world, produced.conn)
    &&& world.lines[produced.conn as int].queued.len() == 0
    &&& world.lines[produced.conn as int].node_id == state.placement(produced.topic)
    &&& conformance::is_heard(state, produced.addr)
    &&& produced.topic.len() > 0
    &&& produced.topic_id@ == topics::spec_mint_topic_id(produced.topic)
    &&& produced.topic_id@ != wire::zero_id()
    &&& state.created.contains_key(produced.topic)
    &&& state.created[produced.topic] == produced.topic_id@
    &&& state.topic_names.contains_key(produced.topic_id@)
    &&& state.topic_names[produced.topic_id@] == produced.topic
    &&& produced.base_offset == first_offset(setting.faults)
    &&& conformance::encodes_probe(setting, produced.sent, flows::spec_plain())
    &&& state.logs.contains_key((produced.topic, 0))
    &&& state.logs[(produced.topic, 0)] == probe_log(produced.sent)
    &&& forall|group: Seq<char>, index: i32|
        !#[trigger] state.committed.contains_key((group, produced.topic, index))
}

/// Whether nothing but topics and their logs sets two clusters apart.
pub open spec fn has_grown(before: ClusterView, after: ClusterView) -> bool {
    after == (ClusterView {
        logs: after.logs,
        created: after.created,
        topic_names: after.topic_names,
        ..before
    })
}

/// The suite stays set on a cluster whose brokers stay.
pub proof fn lemma_still_set(
    setting: Setting,
    ctx: ServerCtx,
    before: ClusterView,
    after: ClusterView,
)
    requires
        conformance::is_set(setting, ctx, before),
        before.ports == after.ports,
        before.down == after.down,
    ensures
        conformance::is_set(setting, ctx, after),
{
    let k = choose|k: int| conformance::listens(before, k, ctx.addr@);
    assert(conformance::listens(after, k, ctx.addr@));
}

/// A log that holds one probe batch of no producer.
pub open spec fn probe_log(sent: Seq<u8>) -> LogView {
    LogView { bytes: sent, next_offset: 2, ..state::empty_log() }
}

/// A topic's id is never all zero.
pub proof fn lemma_minted(name: Seq<char>)
    ensures
        topics::spec_mint_topic_id(name)[0] != wire::zero_id()[0],
        topics::spec_mint_topic_id(name) != wire::zero_id(),
{
    let bytes = vstd::utf8::encode_utf8(name);
    topics::lemma_stirred_len(bytes);
    let id = topics::stirred(bytes).1;
    let x = id[0];
    assert(x | 1 != 0) by (bit_vector);
    assert(topics::spec_mint_topic_id(name)[0] == x | 1);
    assert(wire::zero_id()[0] == 0);
}

/// What the first probe batch makes of an empty log.
pub proof fn lemma_first_write(
    setting: Setting,
    state: ClusterView,
    name: Seq<char>,
    records: Seq<u8>,
)
    requires
        conformance::encodes_probe(setting, records, flows::spec_plain()),
        !state.logs.contains_key((name, 0i32)),
    ensures
        written(setting, state, name, 0, None, records) == (
            probe_log(records),
            Some(log::acceptance(0, first_offset(setting.faults))),
        ),
{
    let batches = (setting.batches)(records)->Some_0;
    assert(batches.drop_last() =~= Seq::empty());
    reveal_with_fuel(log::appended, 2);
    assert(Seq::<u8>::empty() + records =~= records);
}

/// The first attempt at writing the batch; what comes of one that is refused
/// is left out.
pub open spec fn tried(
    tape: Seq<Event>,
    at: int,
    leg: LegOf<Seq<char>, Seq<u8>>,
    conn: usize,
    addr: Seq<char>,
) -> FlowView<ProducedView> {
    match asks::spec_ask_produce(
        tape,
        at,
        Label::Plain,
        ActionOf::Call {
            conn,
            version: leg.produce_version,
            correlation: 11,
            request: RequestOf::Produce {
                topic: flows::spec_address(leg.addressing, leg.topic, leg.topic_id),
                partition: 0,
                acks: flows::ALL_REPLICAS,
                transactional_id: None,
                records: leg.sent,
            },
        },
    ) {
        Err(halt) => Err(tape::spec_during(halt, "Produce"@)),
        Ok((rows, at)) => match find::first_of_first(rows@) {
            Some(row) => Ok(
                (
                    ProducedView {
                        conn,
                        addr,
                        topic: leg.topic,
                        topic_id: leg.topic_id,
                        sent: leg.sent,
                        base_offset: row.base_offset,
                    },
                    at,
                ),
            ),
            None => Err(tape::spec_astray(at)),
        },
    }
}

/// The first attempt is the only one where the write is taken.
proof fn lemma_tried(
    ctx: ServerCtx,
    tape: Seq<Event>,
    at: int,
    leg: LegOf<Seq<char>, Seq<u8>>,
    conn: usize,
    addr: Seq<char>,
)
    requires
        asks::spec_ask_produce(
            tape,
            at,
            Label::Plain,
            ActionOf::Call {
                conn,
                version: leg.produce_version,
                correlation: 11,
                request: RequestOf::Produce {
                    topic: flows::spec_address(leg.addressing, leg.topic, leg.topic_id),
                    partition: 0,
                    acks: flows::ALL_REPLICAS,
                    transactional_id: None,
                    records: leg.sent,
                },
            },
        ) matches Ok((rows, _)) ==> (find::first_of_first(rows@) matches Some(row)
            && row.error.ok()),
    ensures
        flows::spec_produce_leg(ctx, tape, at, leg, conn, addr, 0, ""@) == tried(
            tape,
            at,
            leg,
            conn,
            addr,
        ),
{
}

/// Writing the batch, to the leader.
#[verifier::rlimit(30)]
pub proof fn lemma_produce_leg(
    setting: Setting,
    ctx: ServerCtx,
    tape: Seq<Event>,
    worlds: Seq<World>,
    at: int,
    leg: LegOf<Seq<char>, Seq<u8>>,
    conn: usize,
    addr: Seq<char>,
)
    requires
        trial::spares(
            setting.faults,
            Deed::Shape,
        ) || leg.produce_version != serve::MISSHAPEN_VERSION,
        trial::spares(setting.faults, Deed::Write),
        0 <= at <= tape.len(),
        conformance::is_modern(setting.schema),
        conformance::is_up(worlds[at].state),
        conformance::is_open(worlds[at], conn),
        worlds[at].lines[conn as int].queued.len() == 0,
        setting.schema.produce.min <= leg.produce_version <= setting.schema.produce.max,
        worlds[at].lines[conn as int].node_id == worlds[at].state.placement(leg.topic),
        is_home(worlds[at].state, leg.topic, addr),
        leg.topic.len() > 0,
        leg.topic_id@ == topics::spec_mint_topic_id(leg.topic),
        worlds[at].state.created.contains_key(leg.topic),
        worlds[at].state.created[leg.topic] == leg.topic_id@,
        worlds[at].state.topic_names.contains_key(leg.topic_id@),
        worlds[at].state.topic_names[leg.topic_id@] == leg.topic,
        !worlds[at].state.logs.contains_key((leg.topic, 0i32)),
        forall|group: Seq<char>, index: i32|
            !#[trigger] worlds[at].state.committed.contains_key((group, leg.topic, index)),
        conformance::encodes_probe(setting, leg.sent, flows::spec_plain()),
        forall|i: int|
            at <= i < tape.len() ==> conformance::follows(
                setting,
                tape,
                worlds,
                i,
                flows::spec_produce_leg(ctx, #[trigger] tape.take(i), at, leg, conn, addr, 0, ""@),
            ),
    ensures
        match flows::spec_produce_leg(ctx, tape, at, leg, conn, addr, 0, ""@) {
            Ok((produced, to)) => {
                &&& at <= to <= tape.len()
                &&& conformance::extends(worlds[at], worlds[to])
                &&& has_grown(worlds[at].state, worlds[to].state)
                &&& produced.topic == leg.topic
                &&& produced.sent == leg.sent
                &&& holds_probe(setting, worlds[to], produced)
                &&& is_home(worlds[to].state, produced.topic, produced.addr)
                &&& forall|i: int|
                    to <= i <= tape.len() ==> flows::spec_produce_leg(
                        ctx,
                        #[trigger] tape.take(i),
                        at,
                        leg,
                        conn,
                        addr,
                        0,
                        ""@,
                    )
                        == Ok::<(ProducedView, int), HaltView>((produced, to))
            },
            Err(HaltView::Ask(_)) => true,
            _ => false,
        },
{
    let state = worlds[at].state;
    let topic = flows::spec_address(leg.addressing, leg.topic, leg.topic_id);
    lemma_minted(leg.topic);
    lemma_first_write(setting, state, leg.topic, leg.sent);
    lemma_produce(
        setting,
        tape,
        worlds,
        at,
        Label::Plain,
        conn,
        leg.produce_version,
        11,
        topic,
        0,
        flows::ALL_REPLICAS,
        None,
        leg.sent,
        leg.topic,
    );
    if at < tape.len() {
        lemma_still_home(state, worlds[at + 1].state, leg.topic, addr);
    }
    lemma_tried(ctx, tape, at, leg, conn, addr);
    assert forall|i: int| at <= i <= tape.len() implies flows::spec_produce_leg(
        ctx,
        #[trigger] tape.take(i),
        at,
        leg,
        conn,
        addr,
        0,
        ""@,
    ) == tried(tape.take(i), at, leg, conn, addr) by {
        lemma_tried(ctx, tape.take(i), at, leg, conn, addr);
    }
}

/// The rest of it, once the controller is found.
#[verifier::rlimit(30)]
proof fn lemma_produce_admitted(
    setting: Setting,
    ctx: ServerCtx,
    tape: Seq<Event>,
    worlds: Seq<World>,
    at: int,
    next: int,
    controller: usize,
    bootstrap: usize,
    topic: Seq<char>,
    create_version: i16,
    produce_version: i16,
    metadata_version: i16,
    addressing: Addressing,
)
    requires
        trial::spares(setting.faults, Deed::Shape) || produce_version != serve::MISSHAPEN_VERSION,
        trial::spares(setting.faults, Deed::Write),
        trial::spares(setting.faults, Deed::Topic),
        0 <= at <= next <= tape.len(),
        conformance::is_learned(setting, ctx),
        worlds[next].state == worlds[at].state,
        conformance::extends(worlds[at], worlds[next]),
        conformance::is_up(worlds[at].state),
        conformance::is_open(worlds[at], bootstrap),
        conformance::is_open(worlds[next], controller),
        conformance::is_free(worlds[at].state, topic),
        topic.len() > 0,
        setting.schema.create_topics.min <= create_version <= setting.schema.create_topics.max,
        setting.schema.produce.min <= produce_version <= setting.schema.produce.max,
        setting.schema.metadata.min <= metadata_version <= setting.schema.metadata.max,
        forall|i: int|
            next <= i <= tape.len() ==> flows::spec_admin_conn(
                ctx,
                #[trigger] tape.take(i),
                at,
                bootstrap,
                9,
            )
                == Ok::<(usize, int), HaltView>((controller, next)),
        flows::spec_admin_conn(
            ctx,
            tape,
            at,
            bootstrap,
            9,
        ) == Ok::<(usize, int), HaltView>((controller, next)),
        forall|i: int|
            at <= i < tape.len() ==> conformance::follows(
                setting,
                tape,
                worlds,
                i,
                flows::spec_produce_created(
                    ctx,
                    #[trigger] tape.take(i),
                    at,
                    bootstrap,
                    topic,
                    create_version,
                    produce_version,
                    metadata_version,
                    addressing,
                ),
            ),
    ensures
        match flows::spec_produce_created(
            ctx,
            tape,
            at,
            bootstrap,
            topic,
            create_version,
            produce_version,
            metadata_version,
            addressing,
        ) {
            Ok((produced, to)) => {
                &&& next <= to <= tape.len()
                &&& conformance::extends(worlds[at], worlds[to])
                &&& has_grown(worlds[at].state, worlds[to].state)
                &&& produced.topic == topic
                &&& holds_probe(setting, worlds[to], produced)
                &&& is_home(worlds[to].state, produced.topic, produced.addr)
                &&& forall|i: int|
                    to <= i <= tape.len() ==> flows::spec_produce_created(
                        ctx,
                        #[trigger] tape.take(i),
                        at,
                        bootstrap,
                        topic,
                        create_version,
                        produce_version,
                        metadata_version,
                        addressing,
                    )
                        == Ok::<(ProducedView, int), HaltView>((produced, to))
            },
            Err(HaltView::Ask(_)) => true,
            _ => false,
        },
{
    let label = Label::<Seq<char>>::Plain;
    let creation = ActionOf::<Seq<char>, Seq<u8>>::Call {
        conn: controller,
        version: create_version,
        correlation: 10,
        request: RequestOf::CreateTopics { topic, replication_factor: 1, validate_only: false },
    };
    let encoding = ActionOf::<Seq<char>, Seq<u8>>::Encode { stamp: flows::spec_plain() };
    assert(topics::broker_limit(worlds[at].state) >= 1);
    lemma_minted(topic);
    conformance::lemma_create(
        setting,
        tape,
        worlds,
        next,
        label,
        controller,
        create_version,
        10,
        topic,
        1,
        false,
    );
    match asks::spec_ask_create_topics(tape, next, label, creation) {
        Ok((rows, created)) => {
            let row = rows@[0];
            lemma_encode(setting, tape, worlds, created, label, flows::spec_plain());
            match tape::spec_encode(tape, created, label, encoding) {
                Ok((sent, encoded)) => {
                    lemma_leader(
                        setting,
                        ctx,
                        tape,
                        worlds,
                        encoded,
                        bootstrap,
                        metadata_version,
                        topic,
                        12,
                    );
                    match flows::spec_connect_to_leader(
                        ctx,
                        tape,
                        encoded,
                        bootstrap,
                        metadata_version,
                        topic,
                        12,
                        0,
                    ) {
                        Ok(((conn, addr), found)) => {
                            let leg = LegOf {
                                bootstrap,
                                topic,
                                topic_id: row.topic_id,
                                sent: sent@,
                                produce_version,
                                metadata_version,
                                addressing,
                            };
                            lemma_produce_leg(setting, ctx, tape, worlds, found, leg, conn, addr);
                        },
                        Err(_) => {},
                    }
                },
                Err(_) => {},
            }
        },
        Err(_) => {},
    }
}

/// Creating a topic and writing the batch to it.
pub proof fn lemma_produce_created(
    setting: Setting,
    ctx: ServerCtx,
    tape: Seq<Event>,
    worlds: Seq<World>,
    at: int,
    bootstrap: usize,
    topic: Seq<char>,
    create_version: i16,
    produce_version: i16,
    metadata_version: i16,
    addressing: Addressing,
)
    requires
        trial::spares(setting.faults, Deed::Shape) || produce_version != serve::MISSHAPEN_VERSION,
        trial::spares(setting.faults, Deed::Write),
        trial::spares(setting.faults, Deed::Topic),
        trial::spares(setting.faults, Deed::Cluster),
        0 <= at <= tape.len(),
        conformance::is_learned(setting, ctx),
        conformance::is_up(worlds[at].state),
        conformance::is_open(worlds[at], bootstrap),
        conformance::is_free(worlds[at].state, topic),
        topic.len() > 0,
        setting.schema.create_topics.min <= create_version <= setting.schema.create_topics.max,
        setting.schema.produce.min <= produce_version <= setting.schema.produce.max,
        setting.schema.metadata.min <= metadata_version <= setting.schema.metadata.max,
        forall|i: int|
            at <= i < tape.len() ==> conformance::follows(
                setting,
                tape,
                worlds,
                i,
                flows::spec_produce_created(
                    ctx,
                    #[trigger] tape.take(i),
                    at,
                    bootstrap,
                    topic,
                    create_version,
                    produce_version,
                    metadata_version,
                    addressing,
                ),
            ),
    ensures
        match flows::spec_produce_created(
            ctx,
            tape,
            at,
            bootstrap,
            topic,
            create_version,
            produce_version,
            metadata_version,
            addressing,
        ) {
            Ok((produced, to)) => {
                &&& at <= to <= tape.len()
                &&& conformance::extends(worlds[at], worlds[to])
                &&& has_grown(worlds[at].state, worlds[to].state)
                &&& produced.topic == topic
                &&& holds_probe(setting, worlds[to], produced)
                &&& is_home(worlds[to].state, produced.topic, produced.addr)
                &&& forall|i: int|
                    to <= i <= tape.len() ==> flows::spec_produce_created(
                        ctx,
                        #[trigger] tape.take(i),
                        at,
                        bootstrap,
                        topic,
                        create_version,
                        produce_version,
                        metadata_version,
                        addressing,
                    )
                        == Ok::<(ProducedView, int), HaltView>((produced, to))
            },
            Err(HaltView::Ask(_)) => true,
            _ => false,
        },
{
    conformance::lemma_admin(setting, ctx, tape, worlds, at, bootstrap, 9);
    match flows::spec_admin_conn(ctx, tape, at, bootstrap, 9) {
        Ok((controller, to)) => {
            lemma_produce_admitted(
                setting,
                ctx,
                tape,
                worlds,
                at,
                to,
                controller,
                bootstrap,
                topic,
                create_version,
                produce_version,
                metadata_version,
                addressing,
            );
        },
        Err(_) => {},
    }
}

/// A fresh topic with one batch.
pub proof fn lemma_produce_flow(
    setting: Setting,
    ctx: ServerCtx,
    tape: Seq<Event>,
    worlds: Seq<World>,
    at: int,
    tag: Seq<char>,
    addressing: Addressing,
)
    requires
        trial::spares(setting.faults, Deed::Write),
        trial::spares(setting.faults, Deed::Topic),
        trial::spares(setting.faults, Deed::Cluster),
        0 <= at <= tape.len(),
        conformance::is_set(setting, ctx, worlds[at].state),
        forall|i: int|
            at <= i < tape.len() ==> conformance::follows(
                setting,
                tape,
                worlds,
                i,
                flows::spec_produce_flow(ctx, #[trigger] tape.take(i), at, tag, addressing),
            ),
    ensures
        match flows::spec_produce_flow(ctx, tape, at, tag, addressing) {
            Ok((produced, to)) => {
                &&& at <= to <= tape.len()
                &&& conformance::extends(worlds[at], worlds[to])
                &&& has_grown(worlds[at].state, worlds[to].state)
                &&& conformance::is_set(setting, ctx, worlds[to].state)
                &&& holds_probe(setting, worlds[to], produced)
                &&& is_home(worlds[to].state, produced.topic, produced.addr)
                &&& forall|i: int|
                    to <= i <= tape.len() ==> flows::spec_produce_flow(
                        ctx,
                        #[trigger] tape.take(i),
                        at,
                        tag,
                        addressing,
                    )
                        == Ok::<(ProducedView, int), HaltView>((produced, to))
            },
            Err(HaltView::Ask(_)) => true,
            _ => false,
        },
{
    conformance::lemma_ranges(setting.schema);
    if at < tape.len() {
        assert(tape.take(at).len() == at);
    }
    conformance::lemma_connect(setting, tape, worlds, at, ctx.addr@);
    match tape::spec_connect(tape, at, ctx.addr@) {
        Ok((bootstrap, connected)) => {
            conformance::lemma_fresh_topic(setting, ctx, tape, worlds, connected, tag);
            match ctx::spec_fresh_topic(ctx, tape, connected, tag) {
                Ok((topic, stamped)) => {
                    let newest = setting.schema.produce.max;
                    lemma_produce_created(
                        setting,
                        ctx,
                        tape,
                        worlds,
                        stamped,
                        bootstrap,
                        topic,
                        setting.schema.create_topics.max,
                        match addressing {
                            Addressing::Name => if newest <= flows::PRODUCE_NAME_MAX { newest } else {
                                flows::PRODUCE_NAME_MAX
                            },
                            Addressing::TopicId => newest,
                        },
                        setting.schema.metadata.max,
                        addressing,
                    );
                    match flows::spec_produce_flow(ctx, tape, at, tag, addressing) {
                        Ok((_, to)) => {
                            lemma_still_set(setting, ctx, worlds[at].state, worlds[to].state);
                        },
                        Err(_) => {},
                    }
                },
                Err(_) => {},
            }
        },
        Err(_) => {},
    }
}

pub proof fn lemma_produce_basic(
    setting: Setting,
    ctx: ServerCtx,
    tape: Seq<Event>,
    worlds: Seq<World>,
)
    requires
        trial::is_trial(ServerCheck::ProduceBasic, setting.faults),
        conformance::is_set(setting, ctx, worlds[0].state),
        forall|i: int|
            0 <= i < tape.len() ==> conformance::follows(
                setting,
                tape,
                worlds,
                i,
                server_log::spec_produce_basic(ctx, #[trigger] tape.take(i)),
            ),
    ensures
        trial::judged(setting.faults, server_log::spec_produce_basic(ctx, tape)),
{
    assert(trial::spares(setting.faults, Deed::Write));
    assert(trial::spares(setting.faults, Deed::Topic));
    assert(trial::spares(setting.faults, Deed::Cluster));
    lemma_produce_flow(setting, ctx, tape, worlds, 0, "produce"@, Addressing::Name);
}

} // verus!

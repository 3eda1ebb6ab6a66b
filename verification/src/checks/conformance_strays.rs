//! Runs that produce where the way to the leader is wrong.
//!
//! Two faults lead a producer to a broker that does not lead the topic, and
//! one has its topic id refused. It is turned away until it gives up, or has
//! come to the right broker by chance.

use vstd::prelude::*;
use vstd::string::*;

use crate::checks::asks;
use crate::checks::calibration;
use crate::checks::conformance;
use crate::checks::conformance::{Setting, World};
use crate::checks::conformance_log;
use crate::checks::ctx;
use crate::checks::ctx::ServerCtx;
use crate::checks::find;
use crate::checks::flows;
use crate::checks::flows::{Addressing, LegOf, ProducedView};
use crate::checks::server::ServerCheck;
use crate::checks::server_basic;
use crate::checks::server_log;
use crate::checks::tape;
use crate::checks::tape::{ActionOf, Event, HaltView, Label};
use crate::checks::trial;
use crate::checks::trial::Deed;
use crate::subject::Fault;
use crate::subject::log;
use crate::subject::replies::{ProduceReplyView, ProducedPartition, ProducedTopicView};
use crate::subject::requests::{
    MetadataAskView, NamedTopicView, ProduceAskView, ProducePartitionView, ProduceTopicView,
};
use crate::subject::state::ClusterView;
use crate::subject::topics;
use crate::wire;
use crate::wire::{MetadataAnswer, ProducedRow, RequestOf, Response, TopicOf};

verus! {

/// Whether a producer is led astray by the one fault there is.
pub open spec fn strays(faults: Seq<Fault>, addressing: Addressing) -> bool {
    &&& faults.len() == 1
    &&& faults[0] is MetadataLeaderIsUnknown || faults[0] is BrokersDisagreeOnLeader || (faults[0]
        is ProduceTopicIdUnknown && addressing is TopicId)
}

/// Wherever a leader is said to be, a broker listens there.
proof fn lemma_some_address(
    faults: Seq<Fault>,
    state: ClusterView,
    answer: MetadataAnswer,
    topic: Seq<char>,
    ask: MetadataAskView,
    correlation: i32,
    node_id: i32,
)
    requires
        !faults.contains(Fault::MetadataEmptyBrokers),
        conformance::is_up(state),
        conformance::shows_cluster(
            answer,
            topics::spec_metadata(state, ask, correlation, node_id, faults),
        ),
    ensures
        find::spec_leader_address(answer, topic) matches Some(addr) ==> conformance::is_heard(
            state,
            addr,
        ),
{
    reveal_strlit("127.0.0.1");
    match find::sound_partition(answer, topic) {
        Some(row) => {
            let leader = row.leader_id;
            calibration::lemma_first_where(answer.brokers@, find::has_node(leader));
            match find::first_where(answer.brokers@, find::has_node(leader)) {
                Some(broker) => {
                    let brokers = topics::spec_brokers(state, faults);
                    let j = choose|j: int|
                        0 <= j < answer.brokers@.len() && answer.brokers@[j] == broker;
                    assert(answer.brokers@[j].node_id == brokers[j].node_id);
                    assert(conformance::listens(
                        state,
                        j,
                        conformance::address_of(state.ports[j]),
                    ));
                },
                None => {},
            }
        },
        None => {},
    }
}

/// Dialling whoever is said to lead a topic, from some attempt on.
#[verifier::rlimit(30)]
pub proof fn lemma_stray_dial(
    setting: Setting,
    ctx: ServerCtx,
    tape: Seq<Event>,
    worlds: Seq<World>,
    at: int,
    bootstrap: usize,
    version: i16,
    topic: Seq<char>,
    base: i32,
    attempt: int,
)
    requires
        trial::spares(setting.faults, Deed::Cluster),
        0 <= at <= tape.len(),
        0 <= attempt,
        conformance::is_set(setting, ctx, worlds[at].state),
        conformance::is_open(worlds[at], bootstrap),
        setting.schema.metadata.min <= version <= setting.schema.metadata.max,
        forall|i: int|
            at <= i < tape.len() ==> conformance::follows(
                setting,
                tape,
                worlds,
                i,
                flows::spec_connect_to_leader(
                    ctx,
                    #[trigger] tape.take(i),
                    at,
                    bootstrap,
                    version,
                    topic,
                    base,
                    attempt,
                ),
            ),
    ensures
        match flows::spec_connect_to_leader(
            ctx,
            tape,
            at,
            bootstrap,
            version,
            topic,
            base,
            attempt,
        ) {
            Ok((dialed, to)) => {
                &&& at <= to <= tape.len()
                &&& worlds[to].state == worlds[at].state
                &&& conformance::extends(worlds[at], worlds[to])
                &&& conformance::is_open(worlds[to], dialed.0)
                &&& worlds[to].lines[dialed.0 as int].queued.len() == 0
                &&& conformance::is_heard(worlds[at].state, dialed.1)
                &&& forall|i: int|
                    to <= i <= tape.len() ==> flows::spec_connect_to_leader(
                        ctx,
                        #[trigger] tape.take(i),
                        at,
                        bootstrap,
                        version,
                        topic,
                        base,
                        attempt,
                    ) == Ok::<((usize, Seq<char>), int), HaltView>((dialed, to))
            },
            Err(HaltView::Ask(_)) => true,
            _ => false,
        },
    decreases ctx.config.spec_settle_attempts() - attempt,
{
    conformance::lemma_ranges(setting.schema);
    if at < tape.len() {
        assert(tape.take(at).len() == at);
    }
    if attempt >= ctx.config.spec_settle_attempts() {
        conformance::lemma_connect(setting, tape, worlds, at, ctx.addr@);
    } else {
        conformance::lemma_pause_between(setting, tape, worlds, at, attempt);
        match tape::spec_pause_between(tape, at, attempt) {
            Ok((_, paused)) => {
                if paused < tape.len() {
                    assert(tape.take(paused).len() == paused);
                }
                let correlation = ctx::spec_correlation(base, attempt);
                conformance::lemma_metadata(
                    setting,
                    tape,
                    worlds,
                    paused,
                    Label::Named("Metadata"@),
                    bootstrap,
                    version,
                    Some(topic),
                    correlation,
                );
                match flows::spec_metadata(
                    tape,
                    paused,
                    bootstrap,
                    version,
                    Some(topic),
                    correlation,
                ) {
                    Ok((answer, told)) => {
                        lemma_some_address(
                            setting.faults,
                            worlds[paused].state,
                            answer,
                            topic,
                            MetadataAskView {
                                topics: Some(seq![NamedTopicView { name: Some(topic) }]),
                            },
                            correlation,
                            worlds[paused].lines[bootstrap as int].node_id,
                        );
                        if told < tape.len() {
                            assert(tape.take(told).len() == told);
                        }
                        match find::spec_leader_address(answer, topic) {
                            Some(addr) => {
                                conformance::lemma_connect(setting, tape, worlds, told, addr);
                            },
                            None => {
                                lemma_stray_dial(
                                    setting,
                                    ctx,
                                    tape,
                                    worlds,
                                    told,
                                    bootstrap,
                                    version,
                                    topic,
                                    base,
                                    attempt + 1,
                                );
                            },
                        }
                    },
                    Err(_) => {},
                }
            },
            Err(_) => {},
        }
    }
}

/// What the refusal of a write leaves of a cluster: all of it.
pub proof fn lemma_refused_one(
    faults: Seq<Fault>,
    state: ClusterView,
    transactional_id: Option<Seq<char>>,
    acks: i16,
    topic: ProduceTopicView,
    partition: ProducePartitionView,
    node_id: i32,
    code: i16,
)
    requires
        topic.partitions == seq![partition],
        match log::produced_name(state, topic, faults) {
            None => code == wire::UNKNOWN_TOPIC_ID,
            Some(name) => {
                &&& code == wire::NOT_LEADER_OR_FOLLOWER
                &&& state.placement(name) != node_id
                &&& !faults.contains(Fault::AnyBrokerAcceptsWrites)
            },
        },
    ensures
        log::spec_produce(
            state,
            ProduceAskView { transactional_id, acks, topics: seq![topic] },
            node_id,
            faults,
        ) == (
            state,
            Some(
                ProduceReplyView {
                    responses: seq![
                        ProducedTopicView {
                            name: topic.name,
                            topic_id: topic.topic_id,
                            partitions: seq![log::refusal(partition.index, code)],
                        },
                    ],
                },
            ),
        ),
{
    let one = seq![partition];
    let row = log::refusal(partition.index, code);
    let name = log::produced_name(state, topic, faults);
    assert(one.drop_last() =~= Seq::empty());
    reveal_with_fuel(log::produce_partitions, 2);
    assert(Seq::<ProducedPartition>::empty().push(row) =~= seq![row]);
    assert(log::produce_partitions(state, name, transactional_id, one, node_id, faults) == (
        state,
        Some(seq![row]),
    ));
    let all = seq![topic];
    assert(all.drop_last() =~= Seq::empty());
    reveal_with_fuel(log::produce_topics, 2);
    let made = ProducedTopicView {
        name: topic.name,
        topic_id: topic.topic_id,
        partitions: seq![row],
    };
    assert(Seq::<ProducedTopicView>::empty().push(made) =~= seq![made]);
}

/// A Produce request that is refused.
pub proof fn lemma_refused(
    setting: Setting,
    tape: Seq<Event>,
    worlds: Seq<World>,
    at: int,
    label: Label<Seq<char>>,
    conn: usize,
    version: i16,
    correlation: i32,
    topic: TopicOf<Seq<char>>,
    records: Seq<u8>,
    code: i16,
)
    requires
        !setting.faults.contains(Fault::MisshapesOneProduceVersion),
        0 <= at <= tape.len(),
        conformance::is_modern(setting.schema),
        conformance::is_up(worlds[at].state),
        conformance::is_open(worlds[at], conn),
        setting.schema.produce.min <= version <= setting.schema.produce.max,
        match refused_name(setting.faults, worlds[at].state, topic) {
            None => code == wire::UNKNOWN_TOPIC_ID,
            Some(name) => {
                &&& code == wire::NOT_LEADER_OR_FOLLOWER
                &&& worlds[at].state.placement(name) != worlds[at].lines[conn as int].node_id
                &&& !setting.faults.contains(Fault::AnyBrokerAcceptsWrites)
            },
        },
        at < tape.len() ==> conformance::follows(
            setting,
            tape,
            worlds,
            at,
            asks::spec_ask_produce(
                tape.take(at),
                at,
                label,
                writing(conn, version, correlation, topic, records),
            ),
        ),
    ensures
        match asks::spec_ask_produce(
            tape,
            at,
            label,
            writing(conn, version, correlation, topic, records),
        ) {
            Ok((rows, to)) => {
                &&& to == at + 1 <= tape.len()
                &&& worlds[to] == worlds[at]
                &&& find::first_of_first(rows@) matches Some(row) && row.error.code == code
                &&& forall|i: int|
                    to <= i <= tape.len() ==> asks::spec_ask_produce(
                        #[trigger] tape.take(i),
                        at,
                        label,
                        writing(conn, version, correlation, topic, records),
                    ) == Ok::<(Vec<Vec<ProducedRow>>, int), HaltView>((rows, to))
            },
            Err(HaltView::Ask(_)) => at == tape.len(),
            _ => false,
        },
{
    conformance::lemma_ranges(setting.schema);
    let sent = ProducePartitionView {
        index: 0,
        records: Some(records),
        batches: (setting.batches)(records),
        rewritten: (setting.rewritten)(records),
    };
    let asked = ProduceTopicView {
        name: conformance::spelled(topic).0,
        topic_id: conformance::spelled(topic).1,
        partitions: seq![sent],
    };
    lemma_refused_one(
        setting.faults,
        worlds[at].state,
        None,
        flows::ALL_REPLICAS,
        asked,
        sent,
        worlds[at].lines[conn as int].node_id,
        code,
    );
    if at < tape.len() {
        assert(tape.take(at).len() == at);
    }
    let request = writing(conn, version, correlation, topic, records)->Call_request;
    conformance::lemma_call(setting, tape, worlds, at, label, conn, version, correlation, request);
    match tape::spec_call(tape, at, label, ActionOf::Call { conn, version, correlation, request }) {
        Ok((Response::Produce(rows), to)) => {
            assert(rows@[0]@[0].error.code == code);
            assert(worlds[to].lines =~= worlds[at].lines);
        },
        _ => {},
    }
}

/// The topic that a write is taken to be for.
pub open spec fn refused_name(
    faults: Seq<Fault>,
    state: ClusterView,
    topic: TopicOf<Seq<char>>,
) -> Option<Seq<char>> {
    if conformance::spelled(topic).0.len() == 0 && faults.contains(Fault::ProduceTopicIdUnknown) {
        None
    } else {
        state.resolve(conformance::spelled(topic).0, conformance::spelled(topic).1)
    }
}

/// A write of one record set to a topic's first partition.
pub open spec fn writing(
    conn: usize,
    version: i16,
    correlation: i32,
    topic: TopicOf<Seq<char>>,
    records: Seq<u8>,
) -> ActionOf<Seq<char>, Seq<u8>> {
    ActionOf::Call {
        conn,
        version,
        correlation,
        request: RequestOf::Produce {
            topic,
            partition: 0,
            acks: flows::ALL_REPLICAS,
            transactional_id: None,
            records,
        },
    }
}

/// Writing the batch wherever the producer was led, from some attempt on.
#[verifier::rlimit(60)]
pub proof fn lemma_stray_leg(
    setting: Setting,
    ctx: ServerCtx,
    tape: Seq<Event>,
    worlds: Seq<World>,
    at: int,
    leg: LegOf<Seq<char>, Seq<u8>>,
    conn: usize,
    addr: Seq<char>,
    attempt: int,
    last: Seq<char>,
)
    requires
        trial::spares(setting.faults, Deed::Cluster),
        strays(setting.faults, leg.addressing),
        0 <= at <= tape.len(),
        0 <= attempt,
        conformance::is_set(setting, ctx, worlds[at].state),
        conformance::is_open(worlds[at], conn),
        worlds[at].lines[conn as int].queued.len() == 0,
        conformance::is_open(worlds[at], leg.bootstrap),
        setting.schema.produce.min <= leg.produce_version <= setting.schema.produce.max,
        setting.schema.metadata.min <= leg.metadata_version <= setting.schema.metadata.max,
        conformance::is_heard(worlds[at].state, addr),
        leg.topic.len() > 0,
        leg.topic_id@ == topics::spec_mint_topic_id(leg.topic),
        worlds[at].state.created.contains_key(leg.topic),
        worlds[at].state.created[leg.topic] == leg.topic_id@,
        worlds[at].state.topic_names.contains_key(leg.topic_id@),
        worlds[at].state.topic_names[leg.topic_id@] == leg.topic,
        !worlds[at].state.logs.contains_key((leg.topic, 0i32)),
        forall|group: Seq<char>, index: i32|
            !#[trigger] worlds[at].state.committed.contains_key((group, leg.topic, index)),
        conformance::encodes_probe(setting, leg.sent, flows::spec_plain()),
        forall|i: int|
            at <= i < tape.len() ==> conformance::follows(
                setting,
                tape,
                worlds,
                i,
                flows::spec_produce_leg(
                    ctx,
                    #[trigger] tape.take(i),
                    at,
                    leg,
                    conn,
                    addr,
                    attempt,
                    last,
                ),
            ),
    ensures
        match flows::spec_produce_leg(ctx, tape, at, leg, conn, addr, attempt, last) {
            Ok((produced, to)) => {
                &&& at <= to <= tape.len()
                &&& !(setting.faults[0] is ProduceTopicIdUnknown)
                &&& conformance::extends(worlds[at], worlds[to])
                &&& conformance_log::has_grown(worlds[at].state, worlds[to].state)
                &&& produced.topic == leg.topic
                &&& produced.sent == leg.sent
                &&& conformance_log::holds_probe(setting, worlds[to], produced)
                &&& forall|i: int|
                    to <= i <= tape.len() ==> flows::spec_produce_leg(
                        ctx,
                        #[trigger] tape.take(i),
                        at,
                        leg,
                        conn,
                        addr,
                        attempt,
                        last,
                    ) == Ok::<(ProducedView, int), HaltView>((produced, to))
            },
            Err(HaltView::Ask(_)) => true,
            Err(halt) => trial::fails(halt),
        },
    decreases ctx.config.spec_settle_attempts() - attempt,
{
    if attempt < ctx.config.spec_settle_attempts() {
        let state = worlds[at].state;
        let topic = flows::spec_address(leg.addressing, leg.topic, leg.topic_id);
        let named = refused_name(setting.faults, state, topic);
        let version = leg.produce_version;
        conformance_log::lemma_minted(leg.topic);
        if at < tape.len() {
            assert(tape.take(at).len() == at);
        }
        if named == Some(leg.topic) && worlds[at].lines[conn as int].node_id == state.placement(
            leg.topic,
        ) {
            conformance_log::lemma_first_write(setting, state, leg.topic, leg.sent);
            conformance_log::lemma_produce(
                setting,
                tape,
                worlds,
                at,
                Label::Plain,
                conn,
                version,
                11,
                topic,
                0,
                flows::ALL_REPLICAS,
                None,
                leg.sent,
                leg.topic,
            );
            let k = choose|k: int| conformance::listens(state, k, addr);
            if at < tape.len() {
                assert(conformance::listens(worlds[at + 1].state, k, addr));
                assert(conformance::is_heard(worlds[at + 1].state, addr));
                conformance_log::lemma_same_placement(state, worlds[at + 1].state, leg.topic);
            }
        } else {
            let code = match named {
                None => wire::UNKNOWN_TOPIC_ID,
                Some(_) => wire::NOT_LEADER_OR_FOLLOWER,
            };
            lemma_refused(
                setting,
                tape,
                worlds,
                at,
                Label::Plain,
                conn,
                version,
                11,
                topic,
                leg.sent,
                code,
            );
            match asks::spec_ask_produce(
                tape,
                at,
                Label::Plain,
                writing(conn, version, 11, topic, leg.sent),
            ) {
                Ok((rows, told)) => {
                    let row = find::first_of_first(rows@)->Some_0;
                    conformance::lemma_pause_between(setting, tape, worlds, told, 1);
                    match tape::spec_pause(tape, told) {
                        Ok((_, paused)) => {
                            lemma_stray_dial(
                                setting,
                                ctx,
                                tape,
                                worlds,
                                paused,
                                leg.bootstrap,
                                leg.metadata_version,
                                leg.topic,
                                13,
                                0,
                            );
                            match flows::spec_connect_to_leader(
                                ctx,
                                tape,
                                paused,
                                leg.bootstrap,
                                leg.metadata_version,
                                leg.topic,
                                13,
                                0,
                            ) {
                                Ok(((other, place), found)) => {
                                    lemma_stray_leg(
                                        setting,
                                        ctx,
                                        tape,
                                        worlds,
                                        found,
                                        leg,
                                        other,
                                        place,
                                        attempt + 1,
                                        row.error.shown@,
                                    );
                                },
                                Err(_) => {},
                            }
                        },
                        Err(_) => {},
                    }
                },
                Err(_) => {},
            }
        }
    }
}

/// Producing to a topic that is being created, led astray.
#[verifier::rlimit(30)]
proof fn lemma_stray_admitted(
    setting: Setting,
    ctx: ServerCtx,
    tape: Seq<Event>,
    worlds: Seq<World>,
    at: int,
    next: int,
    controller: usize,
    bootstrap: usize,
    topic: Seq<char>,
    create_version: i16,
    produce_version: i16,
    metadata_version: i16,
    addressing: Addressing,
)
    requires
        trial::spares(setting.faults, Deed::Cluster),
        strays(setting.faults, addressing),
        0 <= at <= next <= tape.len(),
        conformance::is_set(setting, ctx, worlds[at].state),
        worlds[next].state == worlds[at].state,
        conformance::extends(worlds[at], worlds[next]),
        conformance::is_up(worlds[at].state),
        conformance::is_open(worlds[at], bootstrap),
        conformance::is_open(worlds[next], controller),
        conformance::is_free(worlds[at].state, topic),
        topic.len() > 0,
        setting.schema.create_topics.min <= create_version <= setting.schema.create_topics.max,
        setting.schema.produce.min <= produce_version <= setting.schema.produce.max,
        setting.schema.metadata.min <= metadata_version <= setting.schema.metadata.max,
        forall|i: int|
            next <= i <= tape.len() ==> flows::spec_admin_conn(
                ctx,
                #[trigger] tape.take(i),
                at,
                bootstrap,
                9,
            )
                == Ok::<(usize, int), HaltView>((controller, next)),
        flows::spec_admin_conn(
            ctx,
            tape,
            at,
            bootstrap,
            9,
        ) == Ok::<(usize, int), HaltView>((controller, next)),
        forall|i: int|
            at <= i < tape.len() ==> conformance::follows(
                setting,
                tape,
                worlds,
                i,
                flows::spec_produce_created(
                    ctx,
                    #[trigger] tape.take(i),
                    at,
                    bootstrap,
                    topic,
                    create_version,
                    produce_version,
                    metadata_version,
                    addressing,
                ),
            ),
    ensures
        match flows::spec_produce_created(
            ctx,
            tape,
            at,
            bootstrap,
            topic,
            create_version,
            produce_version,
            metadata_version,
            addressing,
        ) {
            Ok((produced, to)) => {
                &&& next <= to <= tape.len()
                &&& !(setting.faults[0] is ProduceTopicIdUnknown)
                &&& conformance::extends(worlds[at], worlds[to])
                &&& conformance_log::has_grown(worlds[at].state, worlds[to].state)
                &&& produced.topic == topic
                &&& conformance_log::holds_probe(setting, worlds[to], produced)
                &&& forall|i: int|
                    to <= i <= tape.len() ==> flows::spec_produce_created(
                        ctx,
                        #[trigger] tape.take(i),
                        at,
                        bootstrap,
                        topic,
                        create_version,
                        produce_version,
                        metadata_version,
                        addressing,
                    )
                        == Ok::<(ProducedView, int), HaltView>((produced, to))
            },
            Err(HaltView::Ask(_)) => true,
            Err(halt) => trial::fails(halt),
        },
{
    let label = Label::<Seq<char>>::Plain;
    let creation = ActionOf::<Seq<char>, Seq<u8>>::Call {
        conn: controller,
        version: create_version,
        correlation: 10,
        request: RequestOf::CreateTopics { topic, replication_factor: 1, validate_only: false },
    };
    let encoding = ActionOf::<Seq<char>, Seq<u8>>::Encode { stamp: flows::spec_plain() };
    assert(topics::broker_limit(worlds[at].state) >= 1);
    conformance_log::lemma_minted(topic);
    conformance::lemma_create(
        setting,
        tape,
        worlds,
        next,
        label,
        controller,
        create_version,
        10,
        topic,
        1,
        false,
    );
    match asks::spec_ask_create_topics(tape, next, label, creation) {
        Ok((rows, created)) => {
            let row = rows@[0];
            conformance_log::lemma_encode(
                setting,
                tape,
                worlds,
                created,
                label,
                flows::spec_plain(),
            );
            match tape::spec_encode(tape, created, label, encoding) {
                Ok((sent, encoded)) => {
                    conformance_log::lemma_still_set(
                        setting,
                        ctx,
                        worlds[at].state,
                        worlds[encoded].state,
                    );
                    lemma_stray_dial(
                        setting,
                        ctx,
                        tape,
                        worlds,
                        encoded,
                        bootstrap,
                        metadata_version,
                        topic,
                        12,
                        0,
                    );
                    match flows::spec_connect_to_leader(
                        ctx,
                        tape,
                        encoded,
                        bootstrap,
                        metadata_version,
                        topic,
                        12,
                        0,
                    ) {
                        Ok(((conn, addr), found)) => {
                            let leg = LegOf {
                                bootstrap,
                                topic,
                                topic_id: row.topic_id,
                                sent: sent@,
                                produce_version,
                                metadata_version,
                                addressing,
                            };
                            lemma_stray_leg(
                                setting,
                                ctx,
                                tape,
                                worlds,
                                found,
                                leg,
                                conn,
                                addr,
                                0,
                                ""@,
                            );
                        },
                        Err(_) => {},
                    }
                },
                Err(_) => {},
            }
        },
        Err(_) => {},
    }
}

/// Producing by way of the controller, led astray.
#[verifier::spinoff_prover]
#[verifier::rlimit(50)]
pub proof fn lemma_stray_created(
    setting: Setting,
    ctx: ServerCtx,
    tape: Seq<Event>,
    worlds: Seq<World>,
    at: int,
    bootstrap: usize,
    topic: Seq<char>,
    create_version: i16,
    produce_version: i16,
    metadata_version: i16,
    addressing: Addressing,
)
    requires
        strays(setting.faults, addressing),
        trial::spares(setting.faults, Deed::Cluster),
        0 <= at <= tape.len(),
        conformance::is_set(setting, ctx, worlds[at].state),
        conformance::is_up(worlds[at].state),
        conformance::is_open(worlds[at], bootstrap),
        conformance::is_free(worlds[at].state, topic),
        topic.len() > 0,
        setting.schema.create_topics.min <= create_version <= setting.schema.create_topics.max,
        setting.schema.produce.min <= produce_version <= setting.schema.produce.max,
        setting.schema.metadata.min <= metadata_version <= setting.schema.metadata.max,
        forall|i: int|
            at <= i < tape.len() ==> conformance::follows(
                setting,
                tape,
                worlds,
                i,
                flows::spec_produce_created(
                    ctx,
                    #[trigger] tape.take(i),
                    at,
                    bootstrap,
                    topic,
                    create_version,
                    produce_version,
                    metadata_version,
                    addressing,
                ),
            ),
    ensures
        match flows::spec_produce_created(
            ctx,
            tape,
            at,
            bootstrap,
            topic,
            create_version,
            produce_version,
            metadata_version,
            addressing,
        ) {
            Ok((produced, to)) => {
                &&& at <= to <= tape.len()
                &&& !(setting.faults[0] is ProduceTopicIdUnknown)
                &&& conformance::extends(worlds[at], worlds[to])
                &&& conformance_log::has_grown(worlds[at].state, worlds[to].state)
                &&& produced.topic == topic
                &&& conformance_log::holds_probe(setting, worlds[to], produced)
                &&& forall|i: int|
                    to <= i <= tape.len() ==> flows::spec_produce_created(
                        ctx,
                        #[trigger] tape.take(i),
                        at,
                        bootstrap,
                        topic,
                        create_version,
                        produce_version,
                        metadata_version,
                        addressing,
                    )
                        == Ok::<(ProducedView, int), HaltView>((produced, to))
            },
            Err(HaltView::Ask(_)) => true,
            Err(halt) => trial::fails(halt),
        },
{
    conformance::lemma_admin(setting, ctx, tape, worlds, at, bootstrap, 9);
    match flows::spec_admin_conn(ctx, tape, at, bootstrap, 9) {
        Ok((controller, to)) => {
            assert(worlds[to].state == worlds[at].state);
            assert(conformance::is_open(worlds[to], controller));
            lemma_stray_admitted(
                setting,
                ctx,
                tape,
                worlds,
                at,
                to,
                controller,
                bootstrap,
                topic,
                create_version,
                produce_version,
                metadata_version,
                addressing,
            );
        },
        Err(_) => {},
    }
}

/// The whole produce flow, led astray.
pub proof fn lemma_stray_flow(
    setting: Setting,
    ctx: ServerCtx,
    tape: Seq<Event>,
    worlds: Seq<World>,
    at: int,
    tag: Seq<char>,
    addressing: Addressing,
)
    requires
        strays(setting.faults, addressing),
        trial::spares(setting.faults, Deed::Cluster),
        0 <= at <= tape.len(),
        conformance::is_set(setting, ctx, worlds[at].state),
        forall|i: int|
            at <= i < tape.len() ==> conformance::follows(
                setting,
                tape,
                worlds,
                i,
                flows::spec_produce_flow(ctx, #[trigger] tape.take(i), at, tag, addressing),
            ),
    ensures
        match flows::spec_produce_flow(ctx, tape, at, tag, addressing) {
            Ok((produced, to)) => {
                &&& at <= to <= tape.len()
                &&& !(setting.faults[0] is ProduceTopicIdUnknown)
                &&& conformance::extends(worlds[at], worlds[to])
                &&& conformance_log::has_grown(worlds[at].state, worlds[to].state)
                &&& conformance::is_set(setting, ctx, worlds[to].state)
                &&& conformance_log::holds_probe(setting, worlds[to], produced)
                &&& forall|i: int|
                    to <= i <= tape.len() ==> flows::spec_produce_flow(
                        ctx,
                        #[trigger] tape.take(i),
                        at,
                        tag,
                        addressing,
                    )
                        == Ok::<(ProducedView, int), HaltView>((produced, to))
            },
            Err(HaltView::Ask(_)) => true,
            Err(halt) => trial::fails(halt),
        },
{
    conformance::lemma_ranges(setting.schema);
    if at < tape.len() {
        assert(tape.take(at).len() == at);
    }
    conformance::lemma_connect(setting, tape, worlds, at, ctx.addr@);
    match tape::spec_connect(tape, at, ctx.addr@) {
        Ok((bootstrap, connected)) => {
            conformance::lemma_fresh_topic(setting, ctx, tape, worlds, connected, tag);
            match ctx::spec_fresh_topic(ctx, tape, connected, tag) {
                Ok((topic, stamped)) => {
                    let newest = setting.schema.produce.max;
                    lemma_stray_created(
                        setting,
                        ctx,
                        tape,
                        worlds,
                        stamped,
                        bootstrap,
                        topic,
                        setting.schema.create_topics.max,
                        match addressing {
                            Addressing::Name => if newest <= flows::PRODUCE_NAME_MAX { newest } else {
                                flows::PRODUCE_NAME_MAX
                            },
                            Addressing::TopicId => newest,
                        },
                        setting.schema.metadata.max,
                        addressing,
                    );
                    match flows::spec_produce_flow(ctx, tape, at, tag, addressing) {
                        Ok((_, to)) => {
                            conformance_log::lemma_still_set(
                                setting,
                                ctx,
                                worlds[at].state,
                                worlds[to].state,
                            );
                        },
                        Err(_) => {},
                    }
                },
                Err(_) => {},
            }
        },
        Err(_) => {},
    }
}

pub proof fn lemma_produce_topic_id(
    setting: Setting,
    ctx: ServerCtx,
    tape: Seq<Event>,
    worlds: Seq<World>,
)
    requires
        trial::is_trial(ServerCheck::ProduceTopicId, setting.faults),
        conformance::is_set(setting, ctx, worlds[0].state),
        forall|i: int|
            0 <= i < tape.len() ==> conformance::follows(
                setting,
                tape,
                worlds,
                i,
                server_log::spec_produce_topic_id(ctx, #[trigger] tape.take(i)),
            ),
    ensures
        trial::judged(setting.faults, server_log::spec_produce_topic_id(ctx, tape)),
{
    assert(trial::spares(setting.faults, Deed::Topic));
    assert(trial::spares(setting.faults, Deed::Cluster));
    let tag = "produce-id"@;
    if setting.faults.len() > 0 {
        lemma_stray_flow(setting, ctx, tape, worlds, 0, tag, Addressing::TopicId);
    } else {
        conformance_log::lemma_produce_flow(
            setting,
            ctx,
            tape,
            worlds,
            0,
            tag,
            Addressing::TopicId,
        );
    }
}

#[verifier::rlimit(30)]
pub proof fn lemma_metadata_leader_is_a_known_broker(
    setting: Setting,
    ctx: ServerCtx,
    tape: Seq<Event>,
    worlds: Seq<World>,
)
    requires
        trial::is_trial(ServerCheck::MetadataLeaderIsAKnownBroker, setting.faults),
        conformance::is_set(setting, ctx, worlds[0].state),
        forall|i: int|
            0 <= i < tape.len() ==> conformance::follows(
                setting,
                tape,
                worlds,
                i,
                server_basic::spec_metadata_leader_is_a_known_broker(ctx, #[trigger] tape.take(i)),
            ),
    ensures
        trial::judged(
            setting.faults,
            server_basic::spec_metadata_leader_is_a_known_broker(ctx, tape),
        ),
{
    assert(trial::spares(setting.faults, Deed::Write));
    assert(trial::spares(setting.faults, Deed::Cluster));
    conformance::lemma_ranges(setting.schema);
    let version = setting.schema.metadata.max;
    if setting.faults.len() > 0 {
        lemma_stray_flow(setting, ctx, tape, worlds, 0, "leaderref"@, Addressing::Name);
    } else {
        conformance_log::lemma_produce_flow(
            setting,
            ctx,
            tape,
            worlds,
            0,
            "leaderref"@,
            Addressing::Name,
        );
    }
    match flows::spec_produce_flow(ctx, tape, 0, "leaderref"@, Addressing::Name) {
        Ok((produced, at)) => {
            if at < tape.len() {
                assert(tape.take(at).len() == at);
            }
            conformance::lemma_metadata(
                setting,
                tape,
                worlds,
                at,
                Label::Named("Metadata"@),
                produced.conn,
                version,
                Some(produced.topic),
                910,
            );
            match flows::spec_metadata(
                tape,
                at,
                produced.conn,
                version,
                Some(produced.topic),
                910,
            ) {
                Ok((answer, _)) => {
                    conformance_log::lemma_some_live(worlds[at].state);
                    assert(setting.faults =~= if setting.faults.len() > 0 {
                        seq![Fault::MetadataLeaderIsUnknown]
                    } else {
                        Seq::empty()
                    });
                    calibration::law_known_leader_is_calibrated(
                        answer,
                        worlds[at].state,
                        produced.topic,
                        910,
                        worlds[at].lines[produced.conn as int].node_id,
                        setting.faults.len() > 0,
                    );
                },
                Err(_) => {},
            }
        },
        Err(_) => {},
    }
}

} // verus!

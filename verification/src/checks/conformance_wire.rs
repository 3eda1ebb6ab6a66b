//! Runs of the checks on what goes over the wire as it is: a write that nobody
//! answers, and a batch that nobody opens.

use vstd::prelude::*;
use vstd::string::*;

use crate::checks::asks;
use crate::checks::batch;
use crate::checks::calibration_state;
use crate::checks::conformance;
use crate::checks::conformance::{Setting, World};
use crate::checks::conformance_basic;
use crate::checks::conformance_log;
use crate::checks::conformance_reads;
use crate::checks::ctx;
use crate::checks::ctx::ServerCtx;
use crate::checks::find;
use crate::checks::flows;
use crate::checks::flows::{Addressing, ProducedView};
use crate::checks::log_flows;
use crate::checks::server::ServerCheck;
use crate::checks::server_log;
use crate::checks::tape;
use crate::checks::tape::{ActionOf, ErrorView, Event, FlowView, HaltView, Label};
use crate::checks::trial;
use crate::checks::trial::Deed;
use crate::subject::Fault;
use crate::subject::log;
use crate::subject::requests::{ProducePartitionView, ProduceTopicView};
use crate::subject::state;
use crate::subject::state::ClusterView;
use crate::subject::topics;
use crate::wire;
use crate::wire::{RequestOf, TopicOf};
use crate::VerdictView;

verus! {

/// What a client reads next once it has written and asked for no answer, and
/// asked for versions after that.
pub open spec fn silent_after(
    tape: Seq<Event>,
    at: int,
    version: i16,
    produced: ProducedView,
) -> FlowView<VerdictView> {
    match tape::spec_send(
        tape,
        at,
        Label::Final("Produce"@),
        "sending the acks=0 produce"@,
        unanswered(version, produced),
    ) {
        Err(halt) => Err(halt),
        Ok((_, at)) => match tape::spec_send(
            tape,
            at,
            Label::Plain,
            "sending the follow-up ApiVersions"@,
            following(produced.conn),
        ) {
            Err(halt) => Err(halt),
            Ok((_, at)) => match tape::spec_read_frame(
                tape,
                at,
                "reading the follow-up answer"@,
                produced.conn,
            ) {
                Err(halt) => Err(halt),
                Ok((answer, at)) => Ok((server_log::spec_judge_silence(answer@), at)),
            },
        },
    }
}

/// A write that asks for no answer.
pub open spec fn unanswered(version: i16, produced: ProducedView) -> ActionOf<Seq<char>, Seq<u8>> {
    ActionOf::Send {
        conn: produced.conn,
        version,
        correlation: server_log::SILENT_CORRELATION,
        request: RequestOf::Produce {
            topic: TopicOf::Name(produced.topic),
            partition: 0,
            acks: 0,
            transactional_id: None,
            records: produced.sent,
        },
    }
}

/// The question that is sent after it.
pub open spec fn following(conn: usize) -> ActionOf<Seq<char>, Seq<u8>> {
    ActionOf::Send {
        conn,
        version: 0,
        correlation: server_log::FOLLOW_UP_CORRELATION,
        request: RequestOf::ApiVersions,
    }
}

#[verifier::rlimit(60)]
proof fn lemma_silent_after(
    setting: Setting,
    tape: Seq<Event>,
    worlds: Seq<World>,
    at: int,
    version: i16,
    produced: ProducedView,
)
    requires
        trial::is_trial(ServerCheck::ProduceAcksZeroIsSilent, setting.faults),
        0 <= at <= tape.len(),
        conformance::is_modern(setting.schema),
        setting.schema.produce.min <= version <= setting.schema.produce.max,
        conformance_log::holds_probe(setting, worlds[at], produced),
        forall|i: int|
            at <= i < tape.len() ==> conformance::follows(
                setting,
                tape,
                worlds,
                i,
                silent_after(#[trigger] tape.take(i), at, version, produced),
            ),
    ensures
        trial::judged(setting.faults, silent_after(tape, at, version, produced)),
{
    conformance::lemma_ranges(setting.schema);
    reveal(conformance::performs);
    let k = produced.conn as int;
    let state = worlds[at].state;
    let sent = ProducePartitionView {
        index: 0,
        records: Some(produced.sent),
        batches: (setting.batches)(produced.sent),
        rewritten: (setting.rewritten)(produced.sent),
    };
    let asked = ProduceTopicView {
        name: produced.topic,
        topic_id: wire::zero_id(),
        partitions: seq![sent],
    };
    conformance_log::lemma_produced_one(
        setting.faults,
        state,
        None,
        0,
        asked,
        sent,
        produced.topic,
        worlds[at].lines[k].node_id,
    );
    if at < tape.len() {
        assert(tape.take(at).len() == at);
        assert(conformance::follows(
            setting,
            tape,
            worlds,
            at,
            silent_after(tape.take(at), at, version, produced),
        ));
        assert(tape[at] is Sent);
        let line = worlds[at + 1].lines[k];
        assert(line.open);
        assert(line.queued =~= if setting.faults.len() > 0 {
            seq![server_log::SILENT_CORRELATION]
        } else {
            Seq::empty()
        });
        if at + 1 < tape.len() {
            assert(tape.take(at + 1).len() == at + 1);
            assert(conformance::follows(
                setting,
                tape,
                worlds,
                at + 1,
                silent_after(tape.take(at + 1), at, version, produced),
            ));
            let after = worlds[at + 2].lines[k];
            assert(after.queued =~= line.queued.push(server_log::FOLLOW_UP_CORRELATION));
            if at + 2 < tape.len() {
                assert(tape.take(at + 2).len() == at + 2);
                assert(conformance::follows(
                    setting,
                    tape,
                    worlds,
                    at + 2,
                    silent_after(tape.take(at + 2), at, version, produced),
                ));
            }
        }
    }
}

#[verifier::rlimit(30)]
pub proof fn lemma_produce_acks_zero_is_silent(
    setting: Setting,
    ctx: ServerCtx,
    tape: Seq<Event>,
    worlds: Seq<World>,
)
    requires
        trial::is_trial(ServerCheck::ProduceAcksZeroIsSilent, setting.faults),
        conformance::is_set(setting, ctx, worlds[0].state),
        forall|i: int|
            0 <= i < tape.len() ==> conformance::follows(
                setting,
                tape,
                worlds,
                i,
                server_log::spec_produce_acks_zero_is_silent(ctx, #[trigger] tape.take(i)),
            ),
    ensures
        trial::judged(
            setting.faults,
            server_log::spec_produce_acks_zero_is_silent(ctx, tape),
        ),
{
    assert(trial::spares(setting.faults, Deed::Write));
    assert(trial::spares(setting.faults, Deed::Topic));
    assert(trial::spares(setting.faults, Deed::Cluster));
    conformance::lemma_ranges(setting.schema);
    let newest = setting.schema.produce.max;
    conformance_log::lemma_produce_flow(setting, ctx, tape, worlds, 0, "acks0"@, Addressing::Name);
    match flows::spec_produce_flow(ctx, tape, 0, "acks0"@, Addressing::Name) {
        Ok((produced, at)) => {
            lemma_silent_after(
                setting,
                tape,
                worlds,
                at,
                if newest <= flows::PRODUCE_NAME_MAX { newest } else { flows::PRODUCE_NAME_MAX },
                produced,
            );
        },
        Err(_) => {},
    }
}

/// The encoded gzip batch.
proof fn lemma_gzip_sent(setting: Setting, tape: Seq<Event>, worlds: Seq<World>, at: int)
    requires
        forall|plain: Seq<u8>| #[trigger] batch::gzipped(plain) is Ok,
        0 <= at <= tape.len(),
        forall|i: int|
            at <= i < tape.len() ==> conformance::follows(
                setting,
                tape,
                worlds,
                i,
                server_log::spec_gzip_sent(#[trigger] tape.take(i), at),
            ),
    ensures
        match server_log::spec_gzip_sent(tape, at) {
            Ok((sent, to)) => {
                &&& at <= to <= tape.len()
                &&& worlds[to] == worlds[at]
                &&& exists|payload: Seq<u8>|
                    #[trigger] conformance::encodes_gzip(setting, sent@, payload)
                &&& forall|i: int|
                    to <= i <= tape.len() ==> server_log::spec_gzip_sent(
                        #[trigger] tape.take(i),
                        at,
                    )
                        == Ok::<(Vec<u8>, int), HaltView>((sent, to))
            },
            Err(HaltView::Ask(_)) => true,
            _ => false,
        },
{
    reveal(conformance::performs);
    if at < tape.len() {
        assert(tape.take(at).len() == at);
        assert(conformance::follows(
            setting,
            tape,
            worlds,
            at,
            server_log::spec_gzip_sent(tape.take(at), at),
        ));
        if at + 1 < tape.len() {
            assert(tape.take(at + 1).len() == at + 1);
            assert(conformance::follows(
                setting,
                tape,
                worlds,
                at + 1,
                server_log::spec_gzip_sent(tape.take(at + 1), at),
            ));
        }
    }
}

/// What the first gzipped batch makes of an empty log.
proof fn lemma_gzip_write(
    setting: Setting,
    state: ClusterView,
    name: Seq<char>,
    sent: Seq<u8>,
    payload: Seq<u8>,
)
    requires
        trial::is_trial(ServerCheck::ProduceCompressedPassthrough, setting.faults),
        conformance::encodes_gzip(setting, sent, payload),
        !state.logs.contains_key((name, 0i32)),
    ensures
        ({
            let (log, row) = conformance_log::written(setting, state, name, 0, None, sent);
            &&& row == Some(log::acceptance(0, 0))
            &&& log.next_offset == 2
            &&& trial::deserved(
                setting.faults.len() == 0,
                server_log::spec_judge_passthrough(sent, log.bytes),
            )
        }),
{
    let batches = (setting.batches)(sent)->Some_0;
    assert(batches.drop_last() =~= Seq::empty());
    reveal_with_fuel(log::appended, 2);
    let partition = ProducePartitionView {
        index: 0,
        records: Some(sent),
        batches: Some(batches),
        rewritten: (setting.rewritten)(sent),
    };
    let rewrites = setting.faults.len() > 0;
    assert(setting.faults =~= calibration_state::only_if(
        Fault::ProduceRewritesGzipBatches,
        rewrites,
    ));
    assert(1i16 & 7i16 == 1i16) by (bit_vector);
    calibration_state::law_passthrough_is_calibrated(
        partition,
        batches,
        sent,
        (setting.rewritten)(sent)->Some_0,
        rewrites,
    );
    let kept = log::spec_stored(partition, batches, setting.faults);
    assert(Seq::<u8>::empty() + kept =~= kept);
}

/// Writing the gzip batch: the leader takes it at once.
pub open spec fn packed(
    ctx: ServerCtx,
    tape: Seq<Event>,
    at: int,
    target: usize,
    version: i16,
    topic: Seq<char>,
    sent: Seq<u8>,
) -> FlowView<usize> {
    match tape::spec_doing(
        asks::spec_ask_produce(
            tape,
            at,
            Label::Final("Produce"@),
            packing(target, version, ctx::spec_correlation(960, 0), topic, sent),
        ),
        "Produce"@,
    ) {
        Err(halt) => Err(halt),
        Ok((_, at)) => Ok((target, at)),
    }
}

/// A write of the gzip batch.
pub open spec fn packing(
    conn: usize,
    version: i16,
    correlation: i32,
    topic: Seq<char>,
    records: Seq<u8>,
) -> ActionOf<Seq<char>, Seq<u8>> {
    ActionOf::Call {
        conn,
        version,
        correlation,
        request: RequestOf::Produce {
            topic: TopicOf::Name(topic),
            partition: 0,
            acks: flows::ALL_REPLICAS,
            transactional_id: None,
            records,
        },
    }
}

/// The first attempt is the only one where it is taken.
proof fn lemma_packed_at_once(
    ctx: ServerCtx,
    tape: Seq<Event>,
    at: int,
    bootstrap: usize,
    target: usize,
    version: i16,
    metadata_version: i16,
    topic: Seq<char>,
    sent: Seq<u8>,
)
    requires
        match asks::spec_ask_produce(
            tape,
            at,
            Label::Final("Produce"@),
            packing(target, version, ctx::spec_correlation(960, 0), topic, sent),
        ) {
            Ok((rows, _)) => find::first_of_first(rows@) matches Some(row) && row.error.ok(),
            Err(halt) => halt is Ask,
        },
    ensures
        server_log::spec_gzip_leg(
            ctx,
            tape,
            at,
            bootstrap,
            target,
            version,
            metadata_version,
            topic,
            sent,
            0,
            ""@,
        ) == packed(ctx, tape, at, target, version, topic, sent),
{
    assert(ctx.config.spec_settle_attempts() >= 1);
}

#[verifier::rlimit(30)]
proof fn lemma_gzip_leg(
    setting: Setting,
    ctx: ServerCtx,
    tape: Seq<Event>,
    worlds: Seq<World>,
    at: int,
    bootstrap: usize,
    target: usize,
    version: i16,
    metadata_version: i16,
    topic: Seq<char>,
    sent: Seq<u8>,
    payload: Seq<u8>,
)
    requires
        trial::is_trial(ServerCheck::ProduceCompressedPassthrough, setting.faults),
        0 <= at <= tape.len(),
        conformance::is_modern(setting.schema),
        conformance::is_up(worlds[at].state),
        conformance::is_open(worlds[at], target),
        setting.schema.produce.min <= version <= setting.schema.produce.max,
        worlds[at].lines[target as int].node_id == worlds[at].state.placement(topic),
        topic.len() > 0,
        !worlds[at].state.logs.contains_key((topic, 0i32)),
        conformance::encodes_gzip(setting, sent, payload),
        forall|i: int|
            at <= i < tape.len() ==> conformance::follows(
                setting,
                tape,
                worlds,
                i,
                server_log::spec_gzip_leg(
                    ctx,
                    #[trigger] tape.take(i),
                    at,
                    bootstrap,
                    target,
                    version,
                    metadata_version,
                    topic,
                    sent,
                    0,
                    ""@,
                ),
            ),
    ensures
        match server_log::spec_gzip_leg(
            ctx,
            tape,
            at,
            bootstrap,
            target,
            version,
            metadata_version,
            topic,
            sent,
            0,
            ""@,
        ) {
            Ok((taker, to)) => {
                &&& at <= to <= tape.len()
                &&& taker == target
                &&& conformance::extends(worlds[at], worlds[to])
                &&& worlds[to].state.ports == worlds[at].state.ports
                &&& worlds[to].state.down == worlds[at].state.down
                &&& worlds[to].state.logs.contains_key((topic, 0i32))
                &&& worlds[to].state.logs[(topic, 0i32)].next_offset == 2
                &&& trial::deserved(
                    setting.faults.len() == 0,
                    server_log::spec_judge_passthrough(
                        sent,
                        worlds[to].state.logs[(topic, 0i32)].bytes,
                    ),
                )
                &&& forall|i: int|
                    to <= i <= tape.len() ==> server_log::spec_gzip_leg(
                        ctx,
                        #[trigger] tape.take(i),
                        at,
                        bootstrap,
                        target,
                        version,
                        metadata_version,
                        topic,
                        sent,
                        0,
                        ""@,
                    ) == Ok::<(usize, int), HaltView>((taker, to))
            },
            Err(HaltView::Ask(_)) => true,
            _ => false,
        },
{
    let correlation = ctx::spec_correlation(960, 0);
    let label = Label::Final("Produce"@);
    assert(trial::spares(setting.faults, Deed::Write));
    assert(trial::spares(setting.faults, Deed::Shape));
    assert(ctx.config.spec_settle_attempts() >= 1);
    assert forall|i: int| at <= i < tape.len() implies conformance::follows(
        setting,
        tape,
        worlds,
        i,
        asks::spec_ask_produce(
            #[trigger] tape.take(i),
            at,
            label,
            packing(target, version, correlation, topic, sent),
        ),
    ) by {
        if asks::spec_ask_produce(
            tape.take(i),
            at,
            label,
            packing(target, version, correlation, topic, sent),
        ) matches Err(halt) && halt is Ask {
            lemma_packed_at_once(
                ctx,
                tape.take(i),
                at,
                bootstrap,
                target,
                version,
                metadata_version,
                topic,
                sent,
            );
        }
    }
    lemma_gzip_write(setting, worlds[at].state, topic, sent, payload);
    conformance_log::lemma_produce(
        setting,
        tape,
        worlds,
        at,
        label,
        target,
        version,
        correlation,
        TopicOf::Name(topic),
        0,
        flows::ALL_REPLICAS,
        None,
        sent,
        topic,
    );
    lemma_packed_at_once(
        ctx,
        tape,
        at,
        bootstrap,
        target,
        version,
        metadata_version,
        topic,
        sent,
    );
    assert forall|i: int| at < i <= tape.len() implies server_log::spec_gzip_leg(
        ctx,
        #[trigger] tape.take(i),
        at,
        bootstrap,
        target,
        version,
        metadata_version,
        topic,
        sent,
        0,
        ""@,
    ) == packed(ctx, tape.take(i), at, target, version, topic, sent) by {
        lemma_packed_at_once(
            ctx,
            tape.take(i),
            at,
            bootstrap,
            target,
            version,
            metadata_version,
            topic,
            sent,
        );
    }
}

/// The first fetch is the only one where it is answered.
proof fn lemma_settled_at_once(
    ctx: ServerCtx,
    tape: Seq<Event>,
    at: int,
    conn: usize,
    version: i16,
    topic: Seq<char>,
    last: ErrorView,
)
    requires
        log_flows::spec_fetch_partition(
            tape,
            at,
            conn,
            version,
            topic,
            0,
            0,
            wire::READ_UNCOMMITTED,
            ctx::spec_correlation(970, 0),
        ) matches Err(halt) ==> halt is Ask,
    ensures
        log_flows::spec_fetch_settled(
            ctx,
            tape,
            at,
            conn,
            version,
            topic,
            0,
            wire::READ_UNCOMMITTED,
            970,
            0,
            last,
        ) == log_flows::spec_fetch_partition(
            tape,
            at,
            conn,
            version,
            topic,
            0,
            0,
            wire::READ_UNCOMMITTED,
            ctx::spec_correlation(970, 0),
        ),
{
    assert(ctx.config.spec_settle_attempts() >= 1);
}

/// What a reader gets of a log.
#[verifier::rlimit(30)]
proof fn lemma_unpacked(
    setting: Setting,
    ctx: ServerCtx,
    tape: Seq<Event>,
    worlds: Seq<World>,
    at: int,
    conn: usize,
    version: i16,
    topic: Seq<char>,
    last: ErrorView,
)
    requires
        trial::is_trial(ServerCheck::ProduceCompressedPassthrough, setting.faults),
        0 <= at <= tape.len(),
        conformance::is_modern(setting.schema),
        conformance::is_up(worlds[at].state),
        conformance::is_open(worlds[at], conn),
        setting.schema.fetch.min <= version <= setting.schema.fetch.max,
        topic.len() > 0,
        worlds[at].state.logs.contains_key((topic, 0i32)),
        worlds[at].state.logs[(topic, 0i32)].next_offset == 2,
        forall|i: int|
            at <= i < tape.len() ==> conformance::follows(
                setting,
                tape,
                worlds,
                i,
                log_flows::spec_fetch_settled(
                    ctx,
                    #[trigger] tape.take(i),
                    at,
                    conn,
                    version,
                    topic,
                    0,
                    wire::READ_UNCOMMITTED,
                    970,
                    0,
                    last,
                ),
            ),
    ensures
        match log_flows::spec_fetch_settled(
            ctx,
            tape,
            at,
            conn,
            version,
            topic,
            0,
            wire::READ_UNCOMMITTED,
            970,
            0,
            last,
        ) {
            Ok((row, _)) => log_flows::spec_records(row)
                == worlds[at].state.logs[(topic, 0i32)].bytes,
            Err(HaltView::Ask(_)) => true,
            _ => false,
        },
{
    let correlation = ctx::spec_correlation(970, 0);
    assert(trial::spares(setting.faults, Deed::Read));
    assert forall|i: int| at <= i < tape.len() implies conformance::follows(
        setting,
        tape,
        worlds,
        i,
        log_flows::spec_fetch_partition(
            #[trigger] tape.take(i),
            at,
            conn,
            version,
            topic,
            0,
            0,
            wire::READ_UNCOMMITTED,
            correlation,
        ),
    ) by {
        if log_flows::spec_fetch_partition(
            tape.take(i),
            at,
            conn,
            version,
            topic,
            0,
            0,
            wire::READ_UNCOMMITTED,
            correlation,
        ) matches Err(halt) && halt is Ask {
            lemma_settled_at_once(ctx, tape.take(i), at, conn, version, topic, last);
        }
    }
    conformance_reads::lemma_fetch(
        setting,
        tape,
        worlds,
        at,
        Label::Named("Fetch"@),
        conn,
        version,
        correlation,
        TopicOf::Name(topic),
        0,
        500,
        0,
        4_194_304,
        wire::READ_UNCOMMITTED,
        topic,
    );
    lemma_settled_at_once(ctx, tape, at, conn, version, topic, last);
}

/// What the check on gzip batches does once the topic is created.
pub open spec fn packed_after(
    ctx: ServerCtx,
    tape: Seq<Event>,
    at: int,
    bootstrap: usize,
    produce_version: i16,
    fetch_version: i16,
    metadata_version: i16,
    topic: Seq<char>,
) -> FlowView<VerdictView> {
    match tape::spec_doing(
        flows::spec_connect_to_leader(
            ctx,
            tape,
            at,
            bootstrap,
            metadata_version,
            topic,
            951,
            0,
        ),
        "locating the partition leader"@,
    ) {
        Err(halt) => Err(halt),
        Ok(((conn, _), at)) => match server_log::spec_gzip_sent(tape, at) {
            Err(halt) => Err(halt),
            Ok((sent, at)) => match server_log::spec_gzip_leg(
                ctx,
                tape,
                at,
                bootstrap,
                conn,
                produce_version,
                metadata_version,
                topic,
                sent@,
                0,
                ""@,
            ) {
                Err(halt) => Err(halt),
                Ok((taker, at)) => match tape::spec_doing(
                    log_flows::spec_fetch_settled(
                        ctx,
                        tape,
                        at,
                        taker,
                        fetch_version,
                        topic,
                        0,
                        wire::READ_UNCOMMITTED,
                        970,
                        0,
                        ErrorView::Infra(
                            "no fetch attempts were made"@,
                        ),
                    ),
                    "Fetch"@,
                ) {
                    Err(halt) => Err(halt),
                    Ok((row, at)) => {
                        let got = log_flows::spec_records(row);
                        Ok((server_log::spec_judge_passthrough(sent@, got), at))
                    },
                },
            },
        },
    }
}

#[verifier::rlimit(50)]
proof fn lemma_packed_after(
    setting: Setting,
    ctx: ServerCtx,
    tape: Seq<Event>,
    worlds: Seq<World>,
    at: int,
    bootstrap: usize,
    produce_version: i16,
    fetch_version: i16,
    metadata_version: i16,
    topic: Seq<char>,
)
    requires
        forall|plain: Seq<u8>| #[trigger] batch::gzipped(plain) is Ok,
        trial::is_trial(ServerCheck::ProduceCompressedPassthrough, setting.faults),
        0 <= at <= tape.len(),
        conformance::is_modern(setting.schema),
        conformance::is_up(worlds[at].state),
        conformance::is_open(worlds[at], bootstrap),
        setting.schema.produce.min <= produce_version <= setting.schema.produce.max,
        setting.schema.fetch.min <= fetch_version <= setting.schema.fetch.max,
        setting.schema.metadata.min <= metadata_version <= setting.schema.metadata.max,
        topic.len() > 0,
        worlds[at].state.created.contains_key(topic),
        !worlds[at].state.logs.contains_key((topic, 0i32)),
        forall|i: int|
            at <= i < tape.len() ==> conformance::follows(
                setting,
                tape,
                worlds,
                i,
                packed_after(
                    ctx,
                    #[trigger] tape.take(i),
                    at,
                    bootstrap,
                    produce_version,
                    fetch_version,
                    metadata_version,
                    topic,
                ),
            ),
    ensures
        trial::judged(
            setting.faults,
            packed_after(
                ctx,
                tape,
                at,
                bootstrap,
                produce_version,
                fetch_version,
                metadata_version,
                topic,
            ),
        ),
{
    assert(trial::spares(setting.faults, Deed::Topic));
    conformance_log::lemma_leader(
        setting,
        ctx,
        tape,
        worlds,
        at,
        bootstrap,
        metadata_version,
        topic,
        951,
    );
    match flows::spec_connect_to_leader(
        ctx,
        tape,
        at,
        bootstrap,
        metadata_version,
        topic,
        951,
        0,
    ) {
        Ok(((conn, _), found)) => {
            lemma_gzip_sent(setting, tape, worlds, found);
            match server_log::spec_gzip_sent(tape, found) {
                Ok((sent, made)) => {
                    let payload = choose|payload: Seq<u8>|
                        #[trigger] conformance::encodes_gzip(setting, sent@, payload);
                    lemma_gzip_leg(
                        setting,
                        ctx,
                        tape,
                        worlds,
                        made,
                        bootstrap,
                        conn,
                        produce_version,
                        metadata_version,
                        topic,
                        sent@,
                        payload,
                    );
                    match server_log::spec_gzip_leg(
                        ctx,
                        tape,
                        made,
                        bootstrap,
                        conn,
                        produce_version,
                        metadata_version,
                        topic,
                        sent@,
                        0,
                        ""@,
                    ) {
                        Ok((taker, took)) => {
                            lemma_unpacked(
                                setting,
                                ctx,
                                tape,
                                worlds,
                                took,
                                taker,
                                fetch_version,
                                topic,
                                ErrorView::Infra("no fetch attempts were made"@),
                            );
                        },
                        Err(_) => {},
                    }
                },
                Err(_) => {},
            }
        },
        Err(_) => {},
    }
}

#[verifier::rlimit(40)]
pub(crate) proof fn lemma_produce_compressed_passthrough(
    setting: Setting,
    ctx: ServerCtx,
    tape: Seq<Event>,
    worlds: Seq<World>,
)
    requires
        trial::is_trial(ServerCheck::ProduceCompressedPassthrough, setting.faults),
        conformance::is_set(setting, ctx, worlds[0].state),
        forall|plain: Seq<u8>| #[trigger] batch::gzipped(plain) is Ok,
        forall|i: int|
            0 <= i < tape.len() ==> conformance::follows(
                setting,
                tape,
                worlds,
                i,
                server_log::spec_produce_compressed_passthrough(ctx, #[trigger] tape.take(i)),
            ),
    ensures
        trial::judged(
            setting.faults,
            server_log::spec_produce_compressed_passthrough(ctx, tape),
        ),
{
    assert(trial::spares(setting.faults, Deed::Cluster));
    conformance::lemma_ranges(setting.schema);
    let schema = setting.schema;
    if 0 < tape.len() {
        assert(tape.take(0).len() == 0);
    }
    conformance::lemma_connect(setting, tape, worlds, 0, ctx.addr@);
    match tape::spec_connect(tape, 0, ctx.addr@) {
        Ok((bootstrap, at)) => {
            conformance::lemma_fresh_topic(setting, ctx, tape, worlds, at, "gzip"@);
            match ctx::spec_fresh_topic(ctx, tape, at, "gzip"@) {
                Ok((topic, named)) => {
                    let create = schema.create_topics.max;
                    assert(topics::broker_limit(worlds[named].state) >= 1);
                    conformance_basic::lemma_create_topic(
                        setting,
                        ctx,
                        tape,
                        worlds,
                        named,
                        bootstrap,
                        create,
                        topic,
                        false,
                        950,
                    );
                    match flows::spec_create_topic(
                        ctx,
                        tape,
                        named,
                        bootstrap,
                        create,
                        topic,
                        false,
                        950,
                    ) {
                        Ok((_, created)) => {
                            lemma_packed_after(
                                setting,
                                ctx,
                                tape,
                                worlds,
                                created,
                                bootstrap,
                                if schema.produce.max <= flows::PRODUCE_NAME_MAX {
                                    schema.produce.max
                                } else {
                                    flows::PRODUCE_NAME_MAX
                                },
                                if schema.fetch.max <= flows::FETCH_NAME_MAX {
                                    schema.fetch.max
                                } else {
                                    flows::FETCH_NAME_MAX
                                },
                                schema.metadata.max,
                                topic,
                            );
                        },
                        Err(_) => {},
                    }
                },
                Err(_) => {},
            }
        },
        Err(_) => {},
    }
}

} // verus!

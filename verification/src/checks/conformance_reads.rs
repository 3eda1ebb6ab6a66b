//! Runs of the checks that read back what was produced.

use vstd::prelude::*;
use vstd::string::*;

use crate::checks::asks;
use crate::checks::batch;
use crate::checks::calibration;
use crate::checks::calibration_log;
use crate::checks::calibration_state;
use crate::checks::conformance;
use crate::checks::conformance::{Setting, World};
use crate::checks::conformance_log;
use crate::checks::ctx;
use crate::checks::ctx::ServerCtx;
use crate::checks::find;
use crate::checks::flows;
use crate::checks::flows::{Addressing, ProducedView};
use crate::checks::log_flows;
use crate::checks::server::ServerCheck;
use crate::checks::server_basic;
use crate::checks::server_log;
use crate::checks::tape;
use crate::checks::tape::{ActionOf, ErrorView, Event, HaltView, Label};
use crate::checks::trial;
use crate::checks::trial::Deed;
use crate::subject::Fault;
use crate::subject::log;
use crate::subject::requests::{FetchPartition, ListPartitionView};
use crate::subject::topics;
use crate::wire;
use crate::wire::{
    ErrorCode, FetchAnswer, MetadataAnswer, OffsetTopic, RecordBatch, RequestOf, Response, TopicId,
    TopicOf, FETCH, LIST_OFFSETS,
};
use crate::VerdictView;

verus! {

/// A Fetch request on an open connection.
pub proof fn lemma_fetch(
    setting: Setting,
    tape: Seq<Event>,
    worlds: Seq<World>,
    at: int,
    label: Label<Seq<char>>,
    conn: usize,
    version: i16,
    correlation: i32,
    topic: TopicOf<Seq<char>>,
    offset: i64,
    max_wait_ms: i32,
    min_bytes: i32,
    max_bytes: i32,
    isolation_level: i8,
    name: Seq<char>,
)
    requires
        trial::spares(setting.faults, Deed::Read),
        0 <= at <= tape.len(),
        conformance::is_modern(setting.schema),
        conformance::is_up(worlds[at].state),
        conformance::is_open(worlds[at], conn),
        setting.schema.fetch.min <= version <= setting.schema.fetch.max,
        worlds[at].state.resolve(
            conformance::spelled(topic).0,
            conformance::spelled(topic).1,
        ) == Some(name),
        worlds[at].state.logs.contains_key((name, 0i32)),
        forall|i: int|
            at <= i < tape.len() ==> conformance::follows(
                setting,
                tape,
                worlds,
                i,
                asks::spec_ask_fetch(
                    #[trigger] tape.take(i),
                    at,
                    label,
                    ActionOf::Call {
                        conn,
                        version,
                        correlation,
                        request: RequestOf::Fetch {
                            topic,
                            partition: 0,
                            offset,
                            max_wait_ms,
                            min_bytes,
                            max_bytes,
                            isolation_level,
                        },
                    },
                ),
            ),
    ensures
        match asks::spec_ask_fetch(
            tape,
            at,
            label,
            ActionOf::Call {
                conn,
                version,
                correlation,
                request: RequestOf::Fetch {
                    topic,
                    partition: 0,
                    offset,
                    max_wait_ms,
                    min_bytes,
                    max_bytes,
                    isolation_level,
                },
            },
        ) {
            Ok((answer, to)) => {
                &&& at <= to <= tape.len()
                &&& to == at + 1
                &&& worlds[to] == worlds[at]
                &&& answer.error.ok()
                &&& answer.topics@.len() == 1
                &&& answer.topics@[0].topic_id@ == log::echoed_id(
                    conformance::spelled(topic).1,
                    setting.faults,
                )
                &&& answer.topics@[0].partitions@.len() == 1
                &&& calibration_log::shows_fetched(
                    answer.topics@[0].partitions@[0],
                    log::spec_fetched(
                        Some(worlds[at].state.logs[(name, 0i32)]),
                        conformance::spelled(topic).0,
                        FetchPartition { partition: 0, fetch_offset: offset },
                        isolation_level,
                        log::corrupts(version, setting.schema.fetch.min, setting.faults),
                        setting.faults,
                    ),
                )
                &&& conformance::shows_aborted(
                    answer.topics@[0].partitions@[0],
                    log::spec_fetched(
                        Some(worlds[at].state.logs[(name, 0i32)]),
                        conformance::spelled(topic).0,
                        FetchPartition { partition: 0, fetch_offset: offset },
                        isolation_level,
                        log::corrupts(version, setting.schema.fetch.min, setting.faults),
                        setting.faults,
                    ),
                )
                &&& forall|i: int|
                    to <= i <= tape.len() ==> asks::spec_ask_fetch(
                        #[trigger] tape.take(i),
                        at,
                        label,
                        ActionOf::Call {
                            conn,
                            version,
                            correlation,
                            request: RequestOf::Fetch {
                                topic,
                                partition: 0,
                                offset,
                                max_wait_ms,
                                min_bytes,
                                max_bytes,
                                isolation_level,
                            },
                        },
                    )
                        == Ok::<(FetchAnswer, int), HaltView>((answer, to))
            },
            Err(HaltView::Ask(_)) => true,
            _ => false,
        },
{
    conformance::lemma_ranges(setting.schema);
    if at < tape.len() {
        assert(tape.take(at).len() == at);
    }
    let request = RequestOf::Fetch {
        topic,
        partition: 0,
        offset,
        max_wait_ms,
        min_bytes,
        max_bytes,
        isolation_level,
    };
    conformance::lemma_call(setting, tape, worlds, at, label, conn, version, correlation, request);
    if at < tape.len() {
        assert(worlds[at + 1].lines =~= worlds[at].lines);
    }
}

/// A record set, decoded.
pub proof fn lemma_decode(
    setting: Setting,
    tape: Seq<Event>,
    worlds: Seq<World>,
    at: int,
    bytes: Seq<u8>,
)
    requires
        0 <= at <= tape.len(),
        forall|i: int|
            at <= i < tape.len() ==> conformance::follows(
                setting,
                tape,
                worlds,
                i,
                tape::spec_decode(#[trigger] tape.take(i), at, bytes),
            ),
    ensures
        match tape::spec_decode(tape, at, bytes) {
            Ok((decoded, to)) => {
                &&& at <= to <= tape.len()
                &&& to == at + 1
                &&& worlds[to] == worlds[at]
                &&& conformance::decodes(setting, bytes, decoded)
                &&& forall|i: int|
                    to <= i <= tape.len() ==> tape::spec_decode(#[trigger] tape.take(i), at, bytes)
                        == Ok::<(Result<Vec<RecordBatch>, String>, int), HaltView>((decoded, to))
            },
            Err(HaltView::Ask(_)) => true,
            _ => false,
        },
{
    reveal(conformance::performs);
    if at < tape.len() {
        assert(tape.take(at).len() == at);
    }
}

/// What a fetch at a version serves of what was sent.
pub open spec fn served(setting: Setting, version: i16, sent: Seq<u8>) -> Seq<u8> {
    if log::corrupts(version, setting.schema.fetch.min, setting.faults) {
        log::spoiled(sent)
    } else {
        sent
    }
}

/// A fetch of what was produced.
pub proof fn lemma_fetch_once(
    setting: Setting,
    tape: Seq<Event>,
    worlds: Seq<World>,
    at: int,
    version: i16,
    addressing: Addressing,
    produced: ProducedView,
)
    requires
        trial::spares(setting.faults, Deed::Read),
        addressing is TopicId ==> !setting.faults.contains(Fault::FetchWrongTopicId),
        0 <= at <= tape.len(),
        conformance::is_modern(setting.schema),
        setting.schema.fetch.min <= version <= setting.schema.fetch.max,
        conformance_log::holds_probe(setting, worlds[at], produced),
        forall|i: int|
            at <= i < tape.len() ==> conformance::follows(
                setting,
                tape,
                worlds,
                i,
                log_flows::spec_fetch_once(
                    #[trigger] tape.take(i),
                    at,
                    produced.conn,
                    version,
                    addressing,
                    produced.topic,
                    produced.topic_id,
                ),
            ),
    ensures
        match log_flows::spec_fetch_once(
            tape,
            at,
            produced.conn,
            version,
            addressing,
            produced.topic,
            produced.topic_id,
        ) {
            Ok((got, to)) => {
                &&& at <= to <= tape.len()
                &&& worlds[to] == worlds[at]
                &&& got == served(setting, version, produced.sent)
                &&& forall|i: int|
                    to <= i <= tape.len() ==> log_flows::spec_fetch_once(
                        #[trigger] tape.take(i),
                        at,
                        produced.conn,
                        version,
                        addressing,
                        produced.topic,
                        produced.topic_id,
                    )
                        == Ok::<(Seq<u8>, int), HaltView>((got, to))
            },
            Err(HaltView::Ask(_)) => true,
            _ => false,
        },
{
    lemma_fetch(
        setting,
        tape,
        worlds,
        at,
        Label::Plain,
        produced.conn,
        version,
        12,
        flows::spec_address(addressing, produced.topic, produced.topic_id),
        0,
        500,
        1,
        8_388_608,
        0,
        produced.topic,
    );
}

/// The first fetch is the only one where it brings records.
proof fn lemma_fetched_at_once(
    ctx: ServerCtx,
    tape: Seq<Event>,
    at: int,
    version: i16,
    addressing: Addressing,
    produced: ProducedView,
)
    requires
        log_flows::spec_fetch_once(
            tape,
            at,
            produced.conn,
            version,
            addressing,
            produced.topic,
            produced.topic_id,
        ) matches Ok((got, _)) ==> got.len() > 0,
        log_flows::spec_fetch_once(
            tape,
            at,
            produced.conn,
            version,
            addressing,
            produced.topic,
            produced.topic_id,
        ) matches Err(halt) ==> halt is Ask,
    ensures
        log_flows::spec_run_fetch(
            ctx,
            tape,
            at,
            produced.conn,
            version,
            addressing,
            produced.topic,
            produced.topic_id,
            0,
            "fetch returned no records"@,
        ) == log_flows::spec_fetch_once(tape, at, produced.conn, version, addressing, produced.topic, produced.topic_id),
{
}

/// Fetching what was produced.
pub proof fn lemma_run_fetch(
    setting: Setting,
    ctx: ServerCtx,
    tape: Seq<Event>,
    worlds: Seq<World>,
    at: int,
    version: i16,
    addressing: Addressing,
    produced: ProducedView,
)
    requires
        trial::spares(setting.faults, Deed::Read),
        addressing is TopicId ==> !setting.faults.contains(Fault::FetchWrongTopicId),
        0 <= at <= tape.len(),
        conformance::is_modern(setting.schema),
        setting.schema.fetch.min <= version <= setting.schema.fetch.max,
        conformance_log::holds_probe(setting, worlds[at], produced),
        forall|i: int|
            at <= i < tape.len() ==> conformance::follows(
                setting,
                tape,
                worlds,
                i,
                log_flows::spec_run_fetch(
                    ctx,
                    #[trigger] tape.take(i),
                    at,
                    produced.conn,
                    version,
                    addressing,
                    produced.topic,
                    produced.topic_id,
                    0,
                    "fetch returned no records"@,
                ),
            ),
    ensures
        match log_flows::spec_run_fetch(
            ctx,
            tape,
            at,
            produced.conn,
            version,
            addressing,
            produced.topic,
            produced.topic_id,
            0,
            "fetch returned no records"@,
        ) {
            Ok((got, to)) => {
                &&& at <= to <= tape.len()
                &&& worlds[to] == worlds[at]
                &&& got == served(setting, version, produced.sent)
                &&& forall|i: int|
                    to <= i <= tape.len() ==> log_flows::spec_run_fetch(
                        ctx,
                        #[trigger] tape.take(i),
                        at,
                        produced.conn,
                        version,
                        addressing,
                        produced.topic,
                        produced.topic_id,
                        0,
                        "fetch returned no records"@,
                    )
                        == Ok::<(Seq<u8>, int), HaltView>((got, to))
            },
            Err(HaltView::Ask(_)) => true,
            _ => false,
        },
{
    assert forall|i: int| at <= i < tape.len() implies conformance::follows(
        setting,
        tape,
        worlds,
        i,
        log_flows::spec_fetch_once(
            #[trigger] tape.take(i),
            at,
            produced.conn,
            version,
            addressing,
            produced.topic,
            produced.topic_id,
        ),
    ) by {
        let once = log_flows::spec_fetch_once(
            tape.take(i),
            at,
            produced.conn,
            version,
            addressing,
            produced.topic,
            produced.topic_id,
        );
        assert(
            once matches Err(HaltView::Ask(action)) ==> log_flows::spec_run_fetch(
                ctx,
                tape.take(i),
                at,
                produced.conn,
                version,
                addressing,
                produced.topic,
                produced.topic_id,
                0,
                "fetch returned no records"@,
            ) == Err::<(Seq<u8>, int), HaltView>(HaltView::Ask(action))
        );
    }
    lemma_fetch_once(setting, tape, worlds, at, version, addressing, produced);
    lemma_fetched_at_once(ctx, tape, at, version, addressing, produced);
    assert forall|i: int| at < i <= tape.len() implies log_flows::spec_run_fetch(
        ctx,
        #[trigger] tape.take(i),
        at,
        produced.conn,
        version,
        addressing,
        produced.topic,
        produced.topic_id,
        0,
        "fetch returned no records"@,
    )
        == log_flows::spec_fetch_once(
            tape.take(i),
            at,
            produced.conn,
            version,
            addressing,
            produced.topic,
            produced.topic_id,
        ) by {
        lemma_fetched_at_once(ctx, tape.take(i), at, version, addressing, produced);
    }
}

/// Bytes do not differ from themselves.
proof fn lemma_no_difference(bytes: Seq<u8>, i: int)
    ensures
        server_log::first_difference(bytes, bytes, i) is None,
    decreases bytes.len() - i,
{
    if 0 <= i < bytes.len() {
        lemma_no_difference(bytes, i + 1);
    }
}

/// A fetch whose answer is not what it should be.
proof fn lemma_fetch_broken(
    setting: Setting,
    tape: Seq<Event>,
    worlds: Seq<World>,
    at: int,
    version: i16,
    addressing: Addressing,
    produced: ProducedView,
)
    requires
        setting.faults.len() == 1,
        setting.faults[0] is FetchTrailingGarbage || (setting.faults[0] is FetchWrongTopicId
            && addressing is TopicId),
        0 <= at <= tape.len(),
        conformance::is_modern(setting.schema),
        setting.schema.fetch.min <= version <= setting.schema.fetch.max,
        conformance_log::holds_probe(setting, worlds[at], produced),
        at < tape.len() ==> conformance::follows(
            setting,
            tape,
            worlds,
            at,
            log_flows::spec_fetch_once(
                tape.take(at),
                at,
                produced.conn,
                version,
                addressing,
                produced.topic,
                produced.topic_id,
            ),
        ),
    ensures
        match log_flows::spec_fetch_once(
            tape,
            at,
            produced.conn,
            version,
            addressing,
            produced.topic,
            produced.topic_id,
        ) {
            Ok(_) => false,
            Err(HaltView::Ask(_)) => at == tape.len(),
            Err(HaltView::Broke(ErrorView::Violation(details), to)) => {
                &&& to == at + 1 <= tape.len()
                &&& worlds[to] == worlds[at]
                &&& forall|i: int|
                    at < i <= tape.len() ==> log_flows::spec_fetch_once(
                        #[trigger] tape.take(i),
                        at,
                        produced.conn,
                        version,
                        addressing,
                        produced.topic,
                        produced.topic_id,
                    ) == Err::<(Seq<u8>, int), HaltView>(
                        HaltView::Broke(ErrorView::Violation(details), to),
                    )
            },
            Err(_) => false,
        },
{
    conformance::lemma_ranges(setting.schema);
    if at < tape.len() {
        assert(tape.take(at).len() == at);
        reveal(conformance::performs);
        assert(worlds[at + 1].lines =~= worlds[at].lines);
        if setting.faults[0] is FetchTrailingGarbage {
            assert(setting.faults.contains(Fault::FetchTrailingGarbage));
        } else {
            assert(setting.faults.contains(Fault::FetchWrongTopicId));
            let id = produced.topic_id@;
            let b = id[0];
            assert(b ^ 0x80 != b) by (bit_vector);
            assert(log::echoed_id(id, setting.faults)[0] != id[0]);
        }
    }
}

/// A fetch that is answered wrong however often it is tried.
proof fn lemma_never_fetched(
    setting: Setting,
    ctx: ServerCtx,
    tape: Seq<Event>,
    worlds: Seq<World>,
    at: int,
    version: i16,
    addressing: Addressing,
    produced: ProducedView,
    attempt: int,
    last: Seq<char>,
)
    requires
        setting.faults.len() == 1,
        setting.faults[0] is FetchTrailingGarbage || (setting.faults[0] is FetchWrongTopicId
            && addressing is TopicId),
        0 <= at <= tape.len(),
        conformance::is_modern(setting.schema),
        setting.schema.fetch.min <= version <= setting.schema.fetch.max,
        conformance_log::holds_probe(setting, worlds[at], produced),
        forall|i: int|
            at <= i < tape.len() ==> conformance::follows(
                setting,
                tape,
                worlds,
                i,
                log_flows::spec_run_fetch(
                    ctx,
                    #[trigger] tape.take(i),
                    at,
                    produced.conn,
                    version,
                    addressing,
                    produced.topic,
                    produced.topic_id,
                    attempt,
                    last,
                ),
            ),
    ensures
        match log_flows::spec_run_fetch(
            ctx,
            tape,
            at,
            produced.conn,
            version,
            addressing,
            produced.topic,
            produced.topic_id,
            attempt,
            last,
        ) {
            Ok(_) => false,
            Err(HaltView::Ask(_)) => true,
            Err(halt) => halt matches HaltView::Broke(ErrorView::Violation(_), _),
        },
    decreases ctx.config.spec_settle_attempts() - attempt,
{
    if attempt < ctx.config.spec_settle_attempts() {
        if at < tape.len() {
            assert(tape.take(at).len() == at);
            assert(conformance::follows(
                setting,
                tape,
                worlds,
                at,
                log_flows::spec_run_fetch(
                    ctx,
                    tape.take(at),
                    at,
                    produced.conn,
                    version,
                    addressing,
                    produced.topic,
                    produced.topic_id,
                    attempt,
                    last,
                ),
            ));
        }
        lemma_fetch_broken(setting, tape, worlds, at, version, addressing, produced);
        match log_flows::spec_fetch_once(
            tape,
            at,
            produced.conn,
            version,
            addressing,
            produced.topic,
            produced.topic_id,
        ) {
            Err(HaltView::Broke(ErrorView::Violation(details), to)) => {
                if log_flows::transient(details) && to < tape.len() {
                    reveal(conformance::performs);
                    assert(tape.take(to).len() == to);
                    assert(conformance::follows(
                        setting,
                        tape,
                        worlds,
                        to,
                        log_flows::spec_run_fetch(
                            ctx,
                            tape.take(to),
                            at,
                            produced.conn,
                            version,
                            addressing,
                            produced.topic,
                            produced.topic_id,
                            attempt,
                            last,
                        ),
                    ));
                    assert(tape[to] is Paused && worlds[to + 1] == worlds[to]);
                    assert forall|i: int| to + 1 <= i < tape.len() implies conformance::follows(
                        setting,
                        tape,
                        worlds,
                        i,
                        log_flows::spec_run_fetch(
                            ctx,
                            #[trigger] tape.take(i),
                            to + 1,
                            produced.conn,
                            version,
                            addressing,
                            produced.topic,
                            produced.topic_id,
                            attempt + 1,
                            details,
                        ),
                    ) by {
                        assert(conformance::follows(
                            setting,
                            tape,
                            worlds,
                            i,
                            log_flows::spec_run_fetch(
                                ctx,
                                tape.take(i),
                                at,
                                produced.conn,
                                version,
                                addressing,
                                produced.topic,
                                produced.topic_id,
                                attempt,
                                last,
                            ),
                        ));
                    }
                    lemma_never_fetched(
                        setting,
                        ctx,
                        tape,
                        worlds,
                        to + 1,
                        version,
                        addressing,
                        produced,
                        attempt + 1,
                        details,
                    );
                }
            },
            _ => {},
        }
    }
}

/// What is spoiled is not what it was.
proof fn lemma_spoils(sent: Seq<u8>)
    requires
        sent.len() > 0,
    ensures
        log::spoiled(sent) != sent,
{
    let b = sent.last();
    assert(b ^ 1 != b) by (bit_vector);
    assert(log::spoiled(sent).last() != b);
}

/// What was fetched is what was sent, or is spoiled.
pub proof fn lemma_fetched_verdict(
    setting: Setting,
    tape: Seq<Event>,
    worlds: Seq<World>,
    at: int,
    sent: Seq<u8>,
    got: Seq<u8>,
)
    requires
        0 <= at <= tape.len(),
        conformance::encodes_probe(setting, sent, flows::spec_plain()),
        got == sent || got == log::spoiled(sent),
        forall|i: int|
            at <= i < tape.len() ==> conformance::follows(
                setting,
                tape,
                worlds,
                i,
                server_log::spec_fetched_verdict(#[trigger] tape.take(i), at, sent, got),
            ),
    ensures
        match server_log::spec_fetched_verdict(tape, at, sent, got) {
            Ok((verdict, to)) => {
                &&& at <= to <= tape.len()
                &&& to == at + 1
                &&& worlds[to] == worlds[at]
                &&& trial::deserved(got == sent, verdict)
                &&& forall|i: int|
                    to <= i <= tape.len() ==> server_log::spec_fetched_verdict(
                        #[trigger] tape.take(i),
                        at,
                        sent,
                        got,
                    )
                        == Ok::<(VerdictView, int), HaltView>((verdict, to))
            },
            Err(HaltView::Ask(_)) => true,
            _ => false,
        },
{
    lemma_decode(setting, tape, worlds, at, got);
    if got == sent {
        lemma_no_difference(sent, server_log::BEFORE_CRC as int);
    } else {
        match tape::spec_decode(tape, at, got) {
            Ok((decoded, _)) => {
                calibration_state::law_corruption_is_calibrated(sent, decoded);
            },
            Err(_) => {},
        }
    }
}

/// The sweep of Fetch's versions, from one of them on.
proof fn lemma_fetch_sweep(
    setting: Setting,
    ctx: ServerCtx,
    tape: Seq<Event>,
    worlds: Seq<World>,
    at: int,
    produced: ProducedView,
    versions: Seq<i16>,
    n: int,
)
    requires
        trial::is_trial(ServerCheck::FetchBatchIntegrity, setting.faults),
        setting.faults.len() > 0 ==> n == 0 < versions.len() && versions[0]
            == setting.schema.fetch.min,
        0 <= at <= tape.len(),
        0 <= n <= versions.len(),
        conformance::is_modern(setting.schema),
        conformance_log::holds_probe(setting, worlds[at], produced),
        forall|j: int|
            0 <= j < versions.len() ==> setting.schema.fetch.min <= #[trigger] versions[j] <= setting.schema.fetch.max,
        forall|i: int|
            at <= i < tape.len() ==> conformance::follows(
                setting,
                tape,
                worlds,
                i,
                server_log::spec_fetch_sweep(
                    ctx,
                    #[trigger] tape.take(i),
                    at,
                    produced,
                    versions,
                    n,
                ),
            ),
    ensures
        trial::judged(
            setting.faults,
            server_log::spec_fetch_sweep(ctx, tape, at, produced, versions, n),
        ),
    decreases versions.len() - n,
{
    if n < versions.len() {
        let version = versions[n];
        if setting.faults.contains(Fault::FetchTrailingGarbage) {
            lemma_never_fetched(
                setting,
                ctx,
                tape,
                worlds,
                at,
                version,
                Addressing::Name,
                produced,
                0,
                "fetch returned no records"@,
            );
        } else {
            assert(trial::spares(setting.faults, Deed::Read));
            lemma_spoils(produced.sent);
            lemma_run_fetch(setting, ctx, tape, worlds, at, version, Addressing::Name, produced);
            match log_flows::spec_run_fetch(
                ctx,
                tape,
                at,
                produced.conn,
                version,
                Addressing::Name,
                produced.topic,
                produced.topic_id,
                0,
                "fetch returned no records"@,
            ) {
                Ok((got, fetched)) => {
                    lemma_fetched_verdict(setting, tape, worlds, fetched, produced.sent, got);
                    match server_log::spec_fetched_verdict(tape, fetched, produced.sent, got) {
                        Ok((verdict, judged)) => if setting.faults.len() == 0 {
                            lemma_fetch_sweep(
                                setting,
                                ctx,
                                tape,
                                worlds,
                                judged,
                                produced,
                                versions,
                                n + 1,
                            );
                        },
                        Err(_) => {},
                    }
                },
                Err(_) => {},
            }
        }
    }
}

#[verifier::rlimit(30)]
pub proof fn lemma_fetch_batch_integrity(
    setting: Setting,
    ctx: ServerCtx,
    tape: Seq<Event>,
    worlds: Seq<World>,
)
    requires
        trial::is_trial(ServerCheck::FetchBatchIntegrity, setting.faults),
        conformance::is_set(setting, ctx, worlds[0].state),
        forall|i: int|
            0 <= i < tape.len() ==> conformance::follows(
                setting,
                tape,
                worlds,
                i,
                server_log::spec_fetch_batch_integrity(ctx, #[trigger] tape.take(i)),
            ),
    ensures
        trial::judged(setting.faults, server_log::spec_fetch_batch_integrity(ctx, tape)),
{
    assert(trial::spares(setting.faults, Deed::Write));
    assert(trial::spares(setting.faults, Deed::Topic));
    assert(trial::spares(setting.faults, Deed::Cluster));
    conformance::lemma_ranges(setting.schema);
    let newest = setting.schema.fetch.max;
    let versions = ctx::version_run(
        setting.schema.fetch.min,
        if newest <= flows::FETCH_NAME_MAX { newest } else { flows::FETCH_NAME_MAX },
    );
    assert(ctx.spec_versions(
        0,
        "Fetch"@,
        FETCH,
        setting.schema.fetch.min,
        flows::FETCH_NAME_MAX,
    ) == Ok::<Seq<i16>, HaltView>(versions));
    conformance_log::lemma_produce_flow(setting, ctx, tape, worlds, 0, "fetch"@, Addressing::Name);
    match flows::spec_produce_flow(ctx, tape, 0, "fetch"@, Addressing::Name) {
        Ok((produced, at)) => {
            lemma_fetch_sweep(setting, ctx, tape, worlds, at, produced, versions, 0);
        },
        Err(_) => {},
    }
}

pub proof fn lemma_fetch_topic_id(
    setting: Setting,
    ctx: ServerCtx,
    tape: Seq<Event>,
    worlds: Seq<World>,
)
    requires
        trial::is_trial(ServerCheck::FetchTopicId, setting.faults),
        conformance::is_set(setting, ctx, worlds[0].state),
        forall|i: int|
            0 <= i < tape.len() ==> conformance::follows(
                setting,
                tape,
                worlds,
                i,
                server_log::spec_fetch_topic_id(ctx, #[trigger] tape.take(i)),
            ),
    ensures
        trial::judged(setting.faults, server_log::spec_fetch_topic_id(ctx, tape)),
{
    assert(trial::spares(setting.faults, Deed::Read));
    assert(trial::spares(setting.faults, Deed::Write));
    assert(trial::spares(setting.faults, Deed::Topic));
    assert(trial::spares(setting.faults, Deed::Cluster));
    conformance::lemma_ranges(setting.schema);
    conformance_log::lemma_produce_flow(
        setting,
        ctx,
        tape,
        worlds,
        0,
        "fetch-id"@,
        Addressing::Name,
    );
    match flows::spec_produce_flow(ctx, tape, 0, "fetch-id"@, Addressing::Name) {
        Ok((produced, at)) => {
            let version = setting.schema.fetch.max;
            if setting.faults.len() > 0 {
                lemma_never_fetched(
                    setting,
                    ctx,
                    tape,
                    worlds,
                    at,
                    version,
                    Addressing::TopicId,
                    produced,
                    0,
                    "fetch returned no records"@,
                );
            } else {
                lemma_run_fetch(
                    setting,
                    ctx,
                    tape,
                    worlds,
                    at,
                    version,
                    Addressing::TopicId,
                    produced,
                );
                match log_flows::spec_run_fetch(
                    ctx,
                    tape,
                    at,
                    produced.conn,
                    version,
                    Addressing::TopicId,
                    produced.topic,
                    produced.topic_id,
                    0,
                    "fetch returned no records"@,
                ) {
                    Ok((got, fetched)) => {
                        lemma_fetched_verdict(setting, tape, worlds, fetched, produced.sent, got);
                    },
                    Err(_) => {},
                }
            }
        },
        Err(_) => {},
    }
}

pub proof fn lemma_fetch_offset_out_of_range(
    setting: Setting,
    ctx: ServerCtx,
    tape: Seq<Event>,
    worlds: Seq<World>,
)
    requires
        trial::is_trial(ServerCheck::FetchOffsetOutOfRange, setting.faults),
        conformance::is_set(setting, ctx, worlds[0].state),
        forall|i: int|
            0 <= i < tape.len() ==> conformance::follows(
                setting,
                tape,
                worlds,
                i,
                server_log::spec_fetch_offset_out_of_range(ctx, #[trigger] tape.take(i)),
            ),
    ensures
        trial::judged(setting.faults, server_log::spec_fetch_offset_out_of_range(ctx, tape)),
{
    assert(trial::spares(setting.faults, Deed::Read));
    assert(trial::spares(setting.faults, Deed::Write));
    assert(trial::spares(setting.faults, Deed::Topic));
    assert(trial::spares(setting.faults, Deed::Cluster));
    conformance::lemma_ranges(setting.schema);
    conformance_log::lemma_produce_flow(
        setting,
        ctx,
        tape,
        worlds,
        0,
        "outofrange"@,
        Addressing::Name,
    );
    match flows::spec_produce_flow(ctx, tape, 0, "outofrange"@, Addressing::Name) {
        Ok((produced, at)) => {
            let newest = setting.schema.fetch.max;
            lemma_fetch(
                setting,
                tape,
                worlds,
                at,
                Label::Final("Fetch"@),
                produced.conn,
                if newest <= flows::FETCH_NAME_MAX { newest } else { flows::FETCH_NAME_MAX },
                91,
                TopicOf::Name(produced.topic),
                server_log::BEYOND,
                500,
                0,
                1_048_576,
                wire::READ_UNCOMMITTED,
                produced.topic,
            );
        },
        Err(_) => {},
    }
}

/// A ListOffsets request on an open connection.
pub proof fn lemma_list_offsets(
    setting: Setting,
    tape: Seq<Event>,
    worlds: Seq<World>,
    at: int,
    conn: usize,
    version: i16,
    topic: Seq<char>,
    timestamp: i64,
    correlation: i32,
)
    requires
        0 <= at <= tape.len(),
        conformance::is_modern(setting.schema),
        conformance::is_up(worlds[at].state),
        conformance::is_open(worlds[at], conn),
        setting.schema.list_offsets.min <= version <= setting.schema.list_offsets.max,
        forall|i: int|
            at <= i < tape.len() ==> conformance::follows(
                setting,
                tape,
                worlds,
                i,
                log_flows::spec_list_offsets(
                    #[trigger] tape.take(i),
                    at,
                    conn,
                    version,
                    topic,
                    timestamp,
                    correlation,
                ),
            ),
    ensures
        match log_flows::spec_list_offsets(tape, at, conn, version, topic, timestamp, correlation) {
            Ok((topics, to)) => {
                &&& at <= to <= tape.len()
                &&& to == at + 1
                &&& worlds[to] == worlds[at]
                &&& topics@.len() == 1
                &&& topics@[0].name@ == topic
                &&& topics@[0].partitions@.len() == 1
                &&& topics@[0].partitions@[0].error.ok()
                &&& topics@[0].partitions@[0].offset == log::spec_listed(
                    worlds[at].state,
                    topic,
                    ListPartitionView {
                        partition_index: 0,
                        timestamp,
                        stored: conformance::stored(setting, worlds[at].state, topic),
                    },
                    setting.faults,
                ).offset
                &&& forall|i: int|
                    to <= i <= tape.len() ==> log_flows::spec_list_offsets(
                        #[trigger] tape.take(i),
                        at,
                        conn,
                        version,
                        topic,
                        timestamp,
                        correlation,
                    )
                        == Ok::<(Vec<OffsetTopic>, int), HaltView>((topics, to))
            },
            Err(HaltView::Ask(_)) => true,
            _ => false,
        },
{
    conformance::lemma_ranges(setting.schema);
    if at < tape.len() {
        assert(tape.take(at).len() == at);
    }
    let request = RequestOf::ListOffsets { topic, timestamp };
    let label = Label::Named("ListOffsets"@);
    conformance::lemma_call(setting, tape, worlds, at, label, conn, version, correlation, request);
    match tape::spec_call(tape, at, label, ActionOf::Call { conn, version, correlation, request }) {
        Ok((Response::ListOffsets(topics), to)) => {
            assert(worlds[at + 1].lines =~= worlds[at].lines);
            assert(topics@[0].name@ == topic);
            assert(topics@[0].partitions@[0].error.code == wire::NONE);
        },
        _ => {},
    }
}

/// Where the log of the probe batch is said to begin.
pub open spec fn first_end(faults: Seq<Fault>) -> i64 {
    if faults.contains(Fault::ListOffsetsWrongEarliest) {
        2
    } else {
        0
    }
}

/// An end of the produced log, by the topic's name.
proof fn lemma_list_ends(
    setting: Setting,
    tape: Seq<Event>,
    worlds: Seq<World>,
    at: int,
    version: i16,
    timestamp: i64,
    correlation: i32,
    produced: ProducedView,
)
    requires
        0 <= at <= tape.len(),
        conformance::is_modern(setting.schema),
        conformance_log::holds_probe(setting, worlds[at], produced),
        setting.schema.list_offsets.min <= version <= setting.schema.list_offsets.max,
        timestamp == wire::EARLIEST_TIMESTAMP || timestamp == wire::LATEST_TIMESTAMP,
        forall|i: int|
            at <= i < tape.len() ==> conformance::follows(
                setting,
                tape,
                worlds,
                i,
                log_flows::spec_list_offsets_at(
                    #[trigger] tape.take(i),
                    at,
                    produced.conn,
                    version,
                    produced.topic,
                    timestamp,
                    correlation,
                ),
            ),
    ensures
        match log_flows::spec_list_offsets_at(
            tape,
            at,
            produced.conn,
            version,
            produced.topic,
            timestamp,
            correlation,
        ) {
            Ok((offset, to)) => {
                &&& at <= to <= tape.len()
                &&& to == at + 1
                &&& worlds[to] == worlds[at]
                &&& offset == if timestamp == wire::EARLIEST_TIMESTAMP {
                    first_end(setting.faults)
                } else { 2i64 }
                &&& forall|i: int|
                    to <= i <= tape.len() ==> log_flows::spec_list_offsets_at(
                        #[trigger] tape.take(i),
                        at,
                        produced.conn,
                        version,
                        produced.topic,
                        timestamp,
                        correlation,
                    )
                        == Ok::<(i64, int), HaltView>((offset, to))
            },
            Err(HaltView::Ask(_)) => true,
            _ => false,
        },
{
    lemma_list_offsets(
        setting,
        tape,
        worlds,
        at,
        produced.conn,
        version,
        produced.topic,
        timestamp,
        correlation,
    );
    match log_flows::spec_list_offsets(
        tape,
        at,
        produced.conn,
        version,
        produced.topic,
        timestamp,
        correlation,
    ) {
        Ok((topics, _)) => {
            assert(find::offsets_named(produced.topic)(topics@[0]));
        },
        Err(_) => {},
    }
}

/// The sweep of ListOffsets' versions, from one of them on.
proof fn lemma_span_sweep(
    setting: Setting,
    tape: Seq<Event>,
    worlds: Seq<World>,
    at: int,
    produced: ProducedView,
    versions: Seq<i16>,
    n: int,
)
    requires
        trial::is_trial(ServerCheck::ListOffsetsEarliestLatest, setting.faults),
        0 <= at <= tape.len(),
        0 <= n <= versions.len(),
        conformance::is_modern(setting.schema),
        conformance_log::holds_probe(setting, worlds[at], produced),
        forall|j: int|
            0 <= j < versions.len() ==> setting.schema.list_offsets.min <= #[trigger] versions[j] <= setting.schema.list_offsets.max,
        forall|i: int|
            at <= i < tape.len() ==> conformance::follows(
                setting,
                tape,
                worlds,
                i,
                server_log::spec_span_sweep(
                    #[trigger] tape.take(i),
                    at,
                    produced.conn,
                    produced.topic,
                    2,
                    versions,
                    n,
                ),
            ),
    ensures
        n < versions.len() || setting.faults.len() == 0 ==> trial::judged(
            setting.faults,
            server_log::spec_span_sweep(tape, at, produced.conn, produced.topic, 2, versions, n),
        ),
    decreases versions.len() - n,
{
    if n < versions.len() {
        let version = versions[n];
        let first = ctx::spec_correlation(41, 2 * n);
        let second = ctx::spec_correlation(42, 2 * n);
        lemma_list_ends(
            setting,
            tape,
            worlds,
            at,
            version,
            wire::EARLIEST_TIMESTAMP,
            first,
            produced,
        );
        match log_flows::spec_list_offsets_at(
            tape,
            at,
            produced.conn,
            version,
            produced.topic,
            wire::EARLIEST_TIMESTAMP,
            first,
        ) {
            Ok((earliest, asked)) => {
                lemma_list_ends(
                    setting,
                    tape,
                    worlds,
                    asked,
                    version,
                    wire::LATEST_TIMESTAMP,
                    second,
                    produced,
                );
                match log_flows::spec_list_offsets_at(
                    tape,
                    asked,
                    produced.conn,
                    version,
                    produced.topic,
                    wire::LATEST_TIMESTAMP,
                    second,
                ) {
                    Ok((latest, told)) => if setting.faults.len() == 0 {
                        lemma_span_sweep(setting, tape, worlds, told, produced, versions, n + 1);
                    },
                    Err(_) => {},
                }
            },
            Err(_) => {},
        }
    }
}

pub proof fn lemma_list_offsets_earliest_latest(
    setting: Setting,
    ctx: ServerCtx,
    tape: Seq<Event>,
    worlds: Seq<World>,
)
    requires
        trial::is_trial(ServerCheck::ListOffsetsEarliestLatest, setting.faults),
        conformance::is_set(setting, ctx, worlds[0].state),
        forall|i: int|
            0 <= i < tape.len() ==> conformance::follows(
                setting,
                tape,
                worlds,
                i,
                server_log::spec_list_offsets_earliest_latest(ctx, #[trigger] tape.take(i)),
            ),
    ensures
        trial::judged(setting.faults, server_log::spec_list_offsets_earliest_latest(ctx, tape)),
{
    assert(trial::spares(setting.faults, Deed::Write));
    assert(trial::spares(setting.faults, Deed::Topic));
    assert(trial::spares(setting.faults, Deed::Cluster));
    conformance::lemma_ranges(setting.schema);
    let versions = ctx::version_run(
        setting.schema.list_offsets.min,
        setting.schema.list_offsets.max,
    );
    assert(ctx.spec_versions(
        0,
        "ListOffsets"@,
        LIST_OFFSETS,
        setting.schema.list_offsets.min,
        setting.schema.list_offsets.max,
    ) == Ok::<Seq<i16>, HaltView>(versions));
    conformance_log::lemma_produce_flow(
        setting,
        ctx,
        tape,
        worlds,
        0,
        "listoffsets"@,
        Addressing::Name,
    );
    match flows::spec_produce_flow(ctx, tape, 0, "listoffsets"@, Addressing::Name) {
        Ok((produced, at)) => {
            lemma_decode(setting, tape, worlds, at, produced.sent);
            match tape::spec_decode(tape, at, produced.sent) {
                Ok((decoded, read)) => {
                    let batches = (setting.batches)(produced.sent)->Some_0;
                    assert(batches.drop_last() =~= Seq::empty());
                    reveal_with_fuel(batch::total_records, 2);
                    lemma_span_sweep(setting, tape, worlds, read, produced, versions, 0);
                },
                Err(_) => {},
            }
        },
        Err(_) => {},
    }
}

/// The offset of a time in the produced log.
proof fn lemma_list_by_time(
    setting: Setting,
    tape: Seq<Event>,
    worlds: Seq<World>,
    at: int,
    version: i16,
    timestamp: i64,
    correlation: i32,
    produced: ProducedView,
)
    requires
        0 <= at <= tape.len(),
        conformance::is_modern(setting.schema),
        conformance_log::holds_probe(setting, worlds[at], produced),
        setting.schema.list_offsets.min <= version <= setting.schema.list_offsets.max,
        timestamp >= 0,
        forall|i: int|
            at <= i < tape.len() ==> conformance::follows(
                setting,
                tape,
                worlds,
                i,
                log_flows::spec_list_offset_of(
                    #[trigger] tape.take(i),
                    at,
                    produced.conn,
                    version,
                    produced.topic,
                    timestamp,
                    correlation,
                ),
            ),
    ensures
        match log_flows::spec_list_offset_of(
            tape,
            at,
            produced.conn,
            version,
            produced.topic,
            timestamp,
            correlation,
        ) {
            Ok((offset, to)) => {
                &&& at <= to <= tape.len()
                &&& to == at + 1
                &&& worlds[to] == worlds[at]
                &&& offset == if setting.faults.contains(Fault::ListOffsetsTimestampReturnsLogEnd) {
                    2
                } else {
                    log::spec_timestamp_search((setting.batches)(produced.sent), timestamp).1
                }
                &&& forall|i: int|
                    to <= i <= tape.len() ==> log_flows::spec_list_offset_of(
                        #[trigger] tape.take(i),
                        at,
                        produced.conn,
                        version,
                        produced.topic,
                        timestamp,
                        correlation,
                    )
                        == Ok::<(i64, int), HaltView>((offset, to))
            },
            Err(HaltView::Ask(_)) => true,
            _ => false,
        },
{
    lemma_list_offsets(
        setting,
        tape,
        worlds,
        at,
        produced.conn,
        version,
        produced.topic,
        timestamp,
        correlation,
    );
}

/// Where the times of the probe batch lead.
proof fn lemma_probe_times(setting: Setting, sent: Seq<u8>)
    requires
        conformance::encodes_probe(setting, sent, flows::spec_plain()),
    ensures
        log::spec_timestamp_search((setting.batches)(sent), batch::PROBE_FIRST_TIMESTAMP).1 == 0,
        log::spec_timestamp_search((setting.batches)(sent), server_log::AFTER_EVERY_RECORD).1
            == wire::UNSET_OFFSET,
{
    let batches = (setting.batches)(sent)->Some_0;
    reveal_with_fuel(log::search_from, 3);
    reveal_with_fuel(log::first_at, 4);
}

#[verifier::rlimit(40)]
pub proof fn lemma_list_offsets_by_timestamp(
    setting: Setting,
    ctx: ServerCtx,
    tape: Seq<Event>,
    worlds: Seq<World>,
)
    requires
        trial::is_trial(ServerCheck::ListOffsetsByTimestamp, setting.faults),
        conformance::is_set(setting, ctx, worlds[0].state),
        forall|i: int|
            0 <= i < tape.len() ==> conformance::follows(
                setting,
                tape,
                worlds,
                i,
                server_log::spec_list_offsets_by_timestamp(ctx, #[trigger] tape.take(i)),
            ),
    ensures
        trial::judged(setting.faults, server_log::spec_list_offsets_by_timestamp(ctx, tape)),
{
    assert(trial::spares(setting.faults, Deed::Write));
    assert(trial::spares(setting.faults, Deed::Topic));
    assert(trial::spares(setting.faults, Deed::Cluster));
    conformance::lemma_ranges(setting.schema);
    conformance_log::lemma_produce_flow(setting, ctx, tape, worlds, 0, "bytime"@, Addressing::Name);
    match flows::spec_produce_flow(ctx, tape, 0, "bytime"@, Addressing::Name) {
        Ok((produced, at)) => {
            let version = setting.schema.list_offsets.max;
            let first = batch::PROBE_FIRST_TIMESTAMP;
            let later = server_log::AFTER_EVERY_RECORD;
            lemma_probe_times(setting, produced.sent);
            lemma_list_by_time(setting, tape, worlds, at, version, first, 780, produced);
            match log_flows::spec_list_offset_of(
                tape,
                at,
                produced.conn,
                version,
                produced.topic,
                first,
                780,
            ) {
                Ok((_, asked)) => if setting.faults.len() == 0 {
                    lemma_list_by_time(setting, tape, worlds, asked, version, later, 790, produced);
                },
                Err(_) => {},
            }
        },
        Err(_) => {},
    }
}

/// A Metadata request about one topic.
pub proof fn lemma_topic_entry(
    setting: Setting,
    tape: Seq<Event>,
    worlds: Seq<World>,
    at: int,
    conn: usize,
    version: i16,
    topic: Seq<char>,
    correlation: i32,
)
    requires
        trial::spares(setting.faults, Deed::Cluster),
        worlds[at].state.created.contains_key(topic) || !setting.faults.contains(
            Fault::MetadataUnknownTopicOmitted,
        ),
        0 <= at <= tape.len(),
        conformance::is_modern(setting.schema),
        conformance::is_served(worlds[at], conn),
        setting.schema.metadata.min <= version <= setting.schema.metadata.max,
        forall|i: int|
            at <= i < tape.len() ==> conformance::follows(
                setting,
                tape,
                worlds,
                i,
                flows::spec_metadata(
                    #[trigger] tape.take(i),
                    at,
                    conn,
                    version,
                    Some(topic),
                    correlation,
                ),
            ),
    ensures
        match flows::spec_metadata(tape, at, conn, version, Some(topic), correlation) {
            Ok((answer, to)) => {
                &&& at <= to <= tape.len()
                &&& to == at + 1
                &&& worlds[to] == worlds[at]
                &&& find::first_where(
                    answer.topics@,
                    find::is_named(topic),
                ) matches Some(entry) && calibration::shows_topic(
                    entry,
                    topics::spec_topic(
                        worlds[at].state,
                        topic,
                        correlation,
                        worlds[at].lines[conn as int].node_id,
                        setting.faults,
                    ),
                )
                &&& forall|i: int|
                    to <= i <= tape.len() ==> flows::spec_metadata(
                        #[trigger] tape.take(i),
                        at,
                        conn,
                        version,
                        Some(topic),
                        correlation,
                    )
                        == Ok::<(MetadataAnswer, int), HaltView>((answer, to))
            },
            Err(HaltView::Ask(_)) => true,
            _ => false,
        },
{
    conformance::lemma_ranges(setting.schema);
    if at < tape.len() {
        assert(tape.take(at).len() == at);
    }
    conformance::lemma_metadata(
        setting,
        tape,
        worlds,
        at,
        Label::Named("Metadata"@),
        conn,
        version,
        Some(topic),
        correlation,
    );
    match flows::spec_metadata(tape, at, conn, version, Some(topic), correlation) {
        Ok((answer, _)) => {
            calibration::lemma_one_name(topic);
            let names = seq![topic];
            assert(names.drop_last() =~= Seq::empty());
            reveal_with_fuel(topics::answered_names, 2);
            assert(topics::answered_names(worlds[at].state, names, setting.faults) =~= names);
            assert(find::is_named(topic)(answer.topics@[0]));
        },
        Err(_) => {},
    }
}

/// Asking for the topic's id, from the given time on.
proof fn lemma_id_asks(
    setting: Setting,
    tape: Seq<Event>,
    worlds: Seq<World>,
    at: int,
    version: i16,
    produced: ProducedView,
    asked: int,
    seen: Option<TopicId>,
)
    requires
        trial::spares(setting.faults, Deed::Cluster),
        trial::is_trial(ServerCheck::MetadataTopicIdIsStable, setting.faults),
        0 <= at <= tape.len(),
        0 <= asked <= 3,
        conformance::is_modern(setting.schema),
        conformance_log::holds_probe(setting, worlds[at], produced),
        setting.schema.metadata.min <= version <= setting.schema.metadata.max,
        setting.faults.len() > 0 ==> asked <= 1 && (seen is Some <==> asked == 1),
        seen matches Some(id) ==> id@ == topics::reported_id(
            produced.topic_id@,
            ctx::spec_correlation(1_320, asked - 1),
            setting.faults,
        ),
        forall|i: int|
            at <= i < tape.len() ==> conformance::follows(
                setting,
                tape,
                worlds,
                i,
                server_basic::spec_id_asks(
                    #[trigger] tape.take(i),
                    at,
                    produced.conn,
                    version,
                    produced.topic,
                    asked,
                    seen,
                ),
            ),
    ensures
        trial::judged(setting.faults, server_basic::spec_id_asks(
            tape,
            at,
            produced.conn,
            version,
            produced.topic,
            asked,
            seen,
        )),
    decreases 3 - asked,
{
    if asked < 3 {
        let correlation = ctx::spec_correlation(1_320, asked);
        lemma_topic_entry(
            setting,
            tape,
            worlds,
            at,
            produced.conn,
            version,
            produced.topic,
            correlation,
        );
        match flows::spec_metadata(
            tape,
            at,
            produced.conn,
            version,
            Some(produced.topic),
            correlation,
        ) {
            Ok((answer, told)) => {
                let entry = find::first_where(
                    answer.topics@,
                    find::is_named(produced.topic),
                )->Some_0;
                let known = match seen {
                    Some(id) => seen,
                    None => Some(entry.topic_id),
                };
                let id = produced.topic_id@;
                assert(entry.topic_id@ == topics::reported_id(id, correlation, setting.faults));
                conformance_log::lemma_minted(produced.topic);
                assert(entry.topic_id@[0] == id[0]);
                assert(entry.topic_id@[0] != wire::zero_id()[0]);
                if setting.faults.len() == 0 {
                    lemma_id_asks(setting, tape, worlds, told, version, produced, asked + 1, known);
                } else if asked == 1 {
                    let before = ctx::spec_correlation(1_320, 0);
                    calibration_log::lemma_salts_differ(before, correlation);
                    assert(
                        topics::reported_id(
                            id,
                            before,
                            setting.faults,
                        ).skip(12) =~= topics::salt(before)
                    );
                    assert(entry.topic_id@.skip(12) =~= topics::salt(correlation));
                } else {
                    lemma_id_asks(setting, tape, worlds, told, version, produced, 1, known);
                }
            },
            Err(_) => {},
        }
    }
}

pub proof fn lemma_metadata_topic_id_is_stable(
    setting: Setting,
    ctx: ServerCtx,
    tape: Seq<Event>,
    worlds: Seq<World>,
)
    requires
        trial::is_trial(ServerCheck::MetadataTopicIdIsStable, setting.faults),
        conformance::is_set(setting, ctx, worlds[0].state),
        forall|i: int|
            0 <= i < tape.len() ==> conformance::follows(
                setting,
                tape,
                worlds,
                i,
                server_basic::spec_metadata_topic_id_is_stable(ctx, #[trigger] tape.take(i)),
            ),
    ensures
        trial::judged(setting.faults, server_basic::spec_metadata_topic_id_is_stable(ctx, tape)),
{
    assert(trial::spares(setting.faults, Deed::Write));
    assert(trial::spares(setting.faults, Deed::Topic));
    assert(trial::spares(setting.faults, Deed::Cluster));
    conformance::lemma_ranges(setting.schema);
    conformance_log::lemma_produce_flow(
        setting,
        ctx,
        tape,
        worlds,
        0,
        "stableid"@,
        Addressing::Name,
    );
    match flows::spec_produce_flow(ctx, tape, 0, "stableid"@, Addressing::Name) {
        Ok((produced, at)) => {
            lemma_id_asks(
                setting,
                tape,
                worlds,
                at,
                setting.schema.metadata.max,
                produced,
                0,
                None,
            );
        },
        Err(_) => {},
    }
}

/// A DeleteTopics request on an open connection.
proof fn lemma_delete(
    setting: Setting,
    tape: Seq<Event>,
    worlds: Seq<World>,
    at: int,
    label: Label<Seq<char>>,
    conn: usize,
    version: i16,
    correlation: i32,
    topic: Seq<char>,
    by_state: bool,
)
    requires
        0 <= at <= tape.len(),
        conformance::is_modern(setting.schema),
        conformance::is_up(worlds[at].state),
        conformance::is_open(worlds[at], conn),
        setting.schema.delete_topics.min <= version <= setting.schema.delete_topics.max,
        worlds[at].state.created.contains_key(topic),
        forall|i: int|
            at <= i < tape.len() ==> conformance::follows(
                setting,
                tape,
                worlds,
                i,
                asks::spec_ask_delete_topics(
                    #[trigger] tape.take(i),
                    at,
                    label,
                    ActionOf::Call {
                        conn,
                        version,
                        correlation,
                        request: RequestOf::DeleteTopics { topic, by_state },
                    },
                ),
            ),
    ensures
        match asks::spec_ask_delete_topics(
            tape,
            at,
            label,
            ActionOf::Call {
                conn,
                version,
                correlation,
                request: RequestOf::DeleteTopics { topic, by_state },
            },
        ) {
            Ok((codes, to)) => {
                &&& at <= to <= tape.len()
                &&& to == at + 1
                &&& conformance::extends(worlds[at], worlds[to])
                &&& worlds[to].state == topics::after_delete(
                    worlds[at].state,
                    topic,
                    setting.faults,
                )
                &&& codes@.len() == 1
                &&& codes@[0].ok()
                &&& forall|i: int|
                    to <= i <= tape.len() ==> asks::spec_ask_delete_topics(
                        #[trigger] tape.take(i),
                        at,
                        label,
                        ActionOf::Call {
                            conn,
                            version,
                            correlation,
                            request: RequestOf::DeleteTopics { topic, by_state },
                        },
                    )
                        == Ok::<(Vec<ErrorCode>, int), HaltView>((codes, to))
            },
            Err(HaltView::Ask(_)) => true,
            _ => false,
        },
{
    conformance::lemma_ranges(setting.schema);
    calibration::lemma_one_name(topic);
    let one = seq![topic];
    assert(one.drop_last() =~= Seq::empty());
    reveal_with_fuel(topics::delete_all, 2);
    if at < tape.len() {
        assert(tape.take(at).len() == at);
    }
    let request = RequestOf::DeleteTopics { topic, by_state };
    conformance::lemma_call(setting, tape, worlds, at, label, conn, version, correlation, request);
    match tape::spec_call(tape, at, label, ActionOf::Call { conn, version, correlation, request }) {
        Ok((Response::DeleteTopics(codes), _)) => {
            assert(codes@[0].code == wire::NONE);
        },
        _ => {},
    }
}

/// Waiting for the deleted topic ends at the first look.
proof fn lemma_gone_at_once(
    ctx: ServerCtx,
    tape: Seq<Event>,
    at: int,
    conn: usize,
    version: i16,
    topic: Seq<char>,
)
    requires
        match flows::spec_metadata(
            tape,
            at,
            conn,
            version,
            Some(topic),
            ctx::spec_correlation(810, 0),
        ) {
            Ok((answer, _)) => find::first_where(
                answer.topics@,
                find::is_named(topic),
            ) matches Some(
                entry,
            ) && server_basic::is_gone(entry),
            Err(halt) => halt is Ask,
        },
    ensures
        conformance::passed(
            server_basic::spec_gone_wait(ctx, tape, at, conn, version, topic, 0, ""@),
        ),
{
}

/// A topic that stays however often it is asked for.
proof fn lemma_never_gone(
    setting: Setting,
    ctx: ServerCtx,
    tape: Seq<Event>,
    worlds: Seq<World>,
    at: int,
    version: i16,
    produced: ProducedView,
    attempt: int,
    last: Seq<char>,
)
    requires
        trial::spares(setting.faults, Deed::Cluster),
        trial::is_trial(ServerCheck::DeleteTopicsRemovesTheTopic, setting.faults),
        setting.faults.len() > 0,
        0 <= at <= tape.len(),
        0 <= attempt,
        conformance::is_modern(setting.schema),
        conformance_log::holds_probe(setting, worlds[at], produced),
        setting.schema.metadata.min <= version <= setting.schema.metadata.max,
        forall|i: int|
            at <= i < tape.len() ==> conformance::follows(
                setting,
                tape,
                worlds,
                i,
                server_basic::spec_gone_wait(
                    ctx,
                    #[trigger] tape.take(i),
                    at,
                    produced.conn,
                    version,
                    produced.topic,
                    attempt,
                    last,
                ),
            ),
    ensures
        trial::judged(
            setting.faults,
            server_basic::spec_gone_wait(
                ctx,
                tape,
                at,
                produced.conn,
                version,
                produced.topic,
                attempt,
                last,
            ),
        ),
    decreases ctx.config.spec_settle_attempts() - attempt,
{
    if attempt < ctx.config.spec_settle_attempts() {
        let correlation = ctx::spec_correlation(810, attempt);
        conformance::lemma_pause_between(
            setting,
            tape,
            worlds,
            at,
            attempt,
        );
        match tape::spec_pause_between(tape, at, attempt) {
            Ok((_, paused)) => {
                lemma_topic_entry(
                    setting,
                    tape,
                    worlds,
                    paused,
                    produced.conn,
                    version,
                    produced.topic,
                    correlation,
                );
                match flows::spec_metadata(
                    tape,
                    paused,
                    produced.conn,
                    version,
                    Some(produced.topic),
                    correlation,
                ) {
                    Ok((answer, told)) => {
                        let entry = find::first_where(
                            answer.topics@,
                            find::is_named(produced.topic),
                        )->Some_0;
                        lemma_never_gone(
                            setting,
                            ctx,
                            tape,
                            worlds,
                            told,
                            version,
                            produced,
                            attempt + 1,
                            entry.error.shown@,
                        );
                    },
                    Err(_) => {},
                }
            },
            Err(_) => {},
        }
    }
}

#[verifier::rlimit(60)]
pub proof fn lemma_delete_topics_removes_the_topic(
    setting: Setting,
    ctx: ServerCtx,
    tape: Seq<Event>,
    worlds: Seq<World>,
)
    requires
        trial::is_trial(ServerCheck::DeleteTopicsRemovesTheTopic, setting.faults),
        conformance::is_set(setting, ctx, worlds[0].state),
        forall|i: int|
            0 <= i < tape.len() ==> conformance::follows(
                setting,
                tape,
                worlds,
                i,
                server_basic::spec_delete_topics_removes_the_topic(ctx, #[trigger] tape.take(i)),
            ),
    ensures
        trial::judged(
            setting.faults,
            server_basic::spec_delete_topics_removes_the_topic(ctx, tape),
        ),
{
    assert(trial::spares(setting.faults, Deed::Write));
    assert(trial::spares(setting.faults, Deed::Topic));
    assert(trial::spares(setting.faults, Deed::Cluster));
    conformance::lemma_ranges(setting.schema);
    let version = setting.schema.metadata.max;
    let delete_version = setting.schema.delete_topics.max;
    let by_state = delete_version >= server_basic::DELETE_TOPICS_BY_STATE;
    conformance_log::lemma_produce_flow(setting, ctx, tape, worlds, 0, "delete"@, Addressing::Name);
    match flows::spec_produce_flow(ctx, tape, 0, "delete"@, Addressing::Name) {
        Ok((produced, at)) => {
            conformance::lemma_controller(
                setting,
                ctx,
                tape,
                worlds,
                at,
                produced.conn,
                version,
                861,
            );
            match flows::spec_connect_to_controller(ctx, tape, at, produced.conn, version, 861) {
                Ok((admin, found)) => {
                    let label = Label::Final("DeleteTopics"@);
                    lemma_delete(
                        setting,
                        tape,
                        worlds,
                        found,
                        label,
                        admin,
                        delete_version,
                        800,
                        produced.topic,
                        by_state,
                    );
                    match asks::spec_ask_delete_topics(
                        tape,
                        found,
                        label,
                        ActionOf::Call {
                            conn: admin,
                            version: delete_version,
                            correlation: 800,
                            request: RequestOf::DeleteTopics { topic: produced.topic, by_state },
                        },
                    ) {
                        Ok((codes, deleted)) => {
                            if setting.faults.len() > 0 {
                                lemma_never_gone(
                                    setting,
                                    ctx,
                                    tape,
                                    worlds,
                                    deleted,
                                    version,
                                    produced,
                                    0,
                                    ""@,
                                );
                            } else {
                                let correlation = ctx::spec_correlation(810, 0);
                                lemma_topic_entry(
                                    setting,
                                    tape,
                                    worlds,
                                    deleted,
                                    produced.conn,
                                    version,
                                    produced.topic,
                                    correlation,
                                );
                                lemma_gone_at_once(
                                    ctx,
                                    tape,
                                    deleted,
                                    produced.conn,
                                    version,
                                    produced.topic,
                                );
                            }
                        },
                        Err(_) => {},
                    }
                },
                Err(_) => {},
            }
        },
        Err(_) => {},
    }
}

} // verus!

//! When a subject passes the checks on producing, fetching and log positions,
//! said of the answers it gave.

use vstd::prelude::*;
use vstd::string::*;

use crate::checks::batch;
use crate::checks::calibration;
use crate::checks::ctx;
use crate::checks::ctx::ServerCtx;
use crate::checks::find;
use crate::checks::flows;
use crate::checks::flows::{Addressing, ProducedView};
use crate::checks::log_flows;
use crate::checks::server::ServerCheck;
use crate::checks::server_log;
use crate::checks::tape;
use crate::checks::tape::{ErrorView, Event, HaltView};
use crate::checks::verdicts;
use crate::wire;
use crate::wire::{
    FetchedRow, RecordBatch, Response, TopicId, FETCH, LIST_OFFSETS, OFFSET_OUT_OF_RANGE,
};
use crate::VerdictView;

verus! {

/// The offset that a ListOffsets answer gives without an error, for the first
/// partition of its first topic.
pub open spec fn offset_at(tape: Seq<Event>, i: int) -> Option<i64> {
    match verdicts::answer_at(tape, i) {
        Some(Response::ListOffsets(topics)) => if topics@.len() > 0 && topics@[0].partitions@.len()
            > 0 && topics@[0].partitions@[0].error.code == 0 {
            Some(topics@[0].partitions@[0].offset)
        } else {
            None
        },
        _ => None,
    }
}

/// A seek by time: where the lookup of the first record's time is answered with
/// one offset and that of a time after every record with another, the check
/// passes exactly if the first is 0 and the second is -1. Any other offset for
/// a time after every record fails, whether it is the log's end or not.
#[verifier::rlimit(60)]
#[verifier::spinoff_prover]
pub proof fn law_seeks_by_time_are_judged(
    ctx: ServerCtx,
    tape: Seq<Event>,
    produced: ProducedView,
    at: int,
    first: i64,
    after: i64,
)
    requires
        ctx.spec_version(0, "ListOffsets"@, LIST_OFFSETS, 1, ctx.schema.list_offsets.max) is Ok,
        flows::spec_produce_flow(ctx, tape, 0, "bytime"@, Addressing::Name) == Ok::<
            (ProducedView, int),
            HaltView,
        >((produced, at)),
        offset_at(tape, at) == Some(first),
        offset_at(tape, at + 1) == Some(after),
    ensures
        verdicts::is_ruled(
            ServerCheck::ListOffsetsByTimestamp.spec_flow(ctx, tape),
            first == 0 && after == -1,
        ),
{
}

/// A pass of the seek by time rests on the last two answers: 0 for the first
/// record's time, and -1 for a time after every record.
#[verifier::rlimit(60)]
#[verifier::spinoff_prover]
pub proof fn law_seeks_by_time_pass_on_both(ctx: ServerCtx, tape: Seq<Event>, to: int)
    requires
        verdicts::passed(ServerCheck::ListOffsetsByTimestamp, ctx, tape, to),
    ensures
        offset_at(tape, to - 2) == Some(0i64),
        offset_at(tape, to - 1) == Some(-1i64),
{
}

/// The two halves of the seek by time, each for every offset.
pub proof fn law_lookups_are_judged(offset: i64)
    ensures
        server_log::spec_judge_first_time(offset) is Pass <==> offset == 0,
        server_log::spec_judge_first_time(offset) is Fail <==> offset != 0,
        server_log::spec_judge_future(offset) is Pass <==> offset == -1,
        server_log::spec_judge_future(offset) is Fail <==> offset != -1,
{
}

/// The long poll: where the fetch at the log's end took one time and the fetch
/// of records that are there another, the check passes exactly if the first
/// took a quarter of a second or more and the second took less. A subject that
/// waits on every fetch fails, and so does one that waits on none.
#[verifier::rlimit(60)]
#[verifier::spinoff_prover]
pub proof fn law_long_polls_are_judged(
    ctx: ServerCtx,
    tape: Seq<Event>,
    produced: ProducedView,
    at: int,
    idle: u64,
    ready: u64,
)
    requires
        ctx.spec_version(0, "Fetch"@, FETCH, ctx.schema.fetch.min, flows::FETCH_NAME_MAX) is Ok,
        flows::spec_produce_flow(ctx, tape, 0, "longpoll"@, Addressing::Name) == Ok::<
            (ProducedView, int),
            HaltView,
        >((produced, at)),
        verdicts::answer_at(tape, at) matches Some(Response::Fetch(_)),
        verdicts::answer_at(tape, at + 1) matches Some(Response::Fetch(_)),
        verdicts::took_at(tape, at) == Some(idle),
        verdicts::took_at(tape, at + 1) == Some(ready),
    ensures
        verdicts::is_ruled(
            ServerCheck::FetchLongPollContract.spec_flow(ctx, tape),
            ready < 250_000_000 <= idle,
        ),
{
}

/// A pass of the long poll rests on the last two fetches: the first waited, and
/// the second did not.
#[verifier::rlimit(60)]
#[verifier::spinoff_prover]
pub proof fn law_long_polls_pass_on_both(ctx: ServerCtx, tape: Seq<Event>, to: int)
    requires
        verdicts::passed(ServerCheck::FetchLongPollContract, ctx, tape, to),
    ensures
        verdicts::took_at(tape, to - 2) matches Some(idle) && idle >= 250_000_000,
        verdicts::took_at(tape, to - 1) matches Some(ready) && ready < 250_000_000,
{
}

/// The two halves of the long poll, each for every time.
pub proof fn law_waits_are_judged(took: u64)
    ensures
        took >= 250_000_000 ==> server_log::spec_judge_idle(took) == VerdictView::Pass
            && server_log::spec_judge_ready(took) is Fail,
        took < 250_000_000 ==> server_log::spec_judge_idle(took) is Fail
            && server_log::spec_judge_ready(took) == VerdictView::Pass,
{
}

/// The first write to a fresh topic passes exactly if it was given offset 0.
#[verifier::rlimit(60)]
#[verifier::spinoff_prover]
pub proof fn law_first_offsets_are_judged(
    ctx: ServerCtx,
    tape: Seq<Event>,
    produced: ProducedView,
    at: int,
)
    requires
        flows::spec_produce_flow(ctx, tape, 0, "produce"@, Addressing::Name) == Ok::<
            (ProducedView, int),
            HaltView,
        >((produced, at)),
    ensures
        verdicts::is_ruled(
            ServerCheck::ProduceBasic.spec_flow(ctx, tape),
            verdicts::written_at(tape, at - 1)->Some_0.base_offset == 0,
        ),
{
    verdicts::lemma_written(ctx, tape, 0, "produce"@, Addressing::Name);
}

/// A pass of the first write rests on an answer without an error, at offset 0.
#[verifier::rlimit(60)]
#[verifier::spinoff_prover]
pub proof fn law_first_offsets_pass(ctx: ServerCtx, tape: Seq<Event>, to: int)
    requires
        verdicts::passed(ServerCheck::ProduceBasic, ctx, tape, to),
    ensures
        verdicts::written_at(tape, to - 1) matches Some(row) && row.error.code == 0
            && row.base_offset == 0,
{
    verdicts::lemma_written(ctx, tape, 0, "produce"@, Addressing::Name);
}

/// A pass of the write by id rests on an answer without an error.
#[verifier::rlimit(60)]
#[verifier::spinoff_prover]
pub proof fn law_writes_by_id_pass(ctx: ServerCtx, tape: Seq<Event>, to: int)
    requires
        verdicts::passed(ServerCheck::ProduceTopicId, ctx, tape, to),
    ensures
        verdicts::written_at(tape, to - 1) matches Some(row) && row.error.code == 0,
{
    let flow = flows::spec_produce_flow(ctx, tape, 0, "produce-id"@, Addressing::TopicId);
    assert(flow is Ok);
    verdicts::lemma_written(ctx, tape, 0, "produce-id"@, Addressing::TopicId);
}

/// What is served passes exactly if it is one batch of as many bytes as were
/// sent, the same from the leader epoch's end on, and at offset 0: nothing in
/// the eight bytes that the offset stands in.
pub open spec fn is_intact(
    sent: Seq<u8>,
    got: Seq<u8>,
    decoded: Result<Vec<RecordBatch>, String>,
) -> bool {
    &&& decoded matches Ok(batches) && batches@.len() == 1
    &&& got.len() == sent.len() >= 8
    &&& forall|i: int| 16 <= i < sent.len() ==> #[trigger] got[i] == sent[i]
    &&& forall|i: int| 0 <= i < 8 ==> #[trigger] got[i] == 0
}

proof fn lemma_differs(a: Seq<u8>, b: Seq<u8>, from: int)
    requires
        0 <= from,
        a.len() == b.len(),
    ensures
        server_log::first_difference(a, b, from) is None <==> forall|i: int|
            from <= i < b.len() ==> #[trigger] a[i] == b[i],
    decreases b.len() - from,
{
    if from < b.len() {
        lemma_differs(a, b, from + 1);
    }
}

/// Whatever was sent, served and decoded, what is served is judged by whether
/// it is intact.
pub proof fn law_served_batches_are_judged(
    sent: Seq<u8>,
    got: Seq<u8>,
    decoded: Result<Vec<RecordBatch>, String>,
)
    ensures
        ({
            let verdict = server_log::spec_batch_integrity(sent, got, decoded);
            if is_intact(sent, got, decoded) {
                verdict == VerdictView::Pass
            } else {
                verdict is Fail
            }
        }),
{
    if got.len() == sent.len() {
        lemma_differs(got, sent, 16);
        if got.len() >= 8 {
            assert(server_log::be_i64(got) == 0 <==> forall|i: int|
                0 <= i < 8 ==> #[trigger] got[i] == 0) by {
                if server_log::be_i64(got) == 0 {
                    assert(got[0] == 0 && got[1] == 0 && got[2] == 0 && got[3] == 0 && got[4] == 0
                        && got[5] == 0 && got[6] == 0 && got[7] == 0);
                }
            }
        }
    }
}

/// A fetch beyond the end passes exactly if it is refused as out of range.
pub proof fn law_fetches_beyond_are_judged(row: FetchedRow)
    ensures
        server_log::spec_judge_beyond(row) is Pass <==> row.error.code == OFFSET_OUT_OF_RANGE,
        server_log::spec_judge_beyond(row) is Pass || server_log::spec_judge_beyond(row) is Fail,
{
}

/// A pass of that check rests on the last answer, which refuses the offset.
#[verifier::rlimit(60)]
#[verifier::spinoff_prover]
pub proof fn law_fetches_beyond_pass(ctx: ServerCtx, tape: Seq<Event>, to: int)
    requires
        verdicts::passed(ServerCheck::FetchOffsetOutOfRange, ctx, tape, to),
    ensures
        verdicts::fetched_at(tape, to - 1) matches Some(row) && row.error.code
            == OFFSET_OUT_OF_RANGE,
{
}

/// The ends of a log pass exactly if it starts at 0 and ends at as many records
/// as were written.
pub proof fn law_log_ends_are_judged(version: i16, earliest: i64, latest: i64, records: i64)
    ensures
        ({
            let verdict = server_log::spec_judge_ends(version, earliest, latest, records);
            if earliest == 0 && latest == records {
                verdict == VerdictView::Pass
            } else {
                verdict is Fail
            }
        }),
{
}

/// What comes back after a write that asks for no answer passes exactly if it
/// begins with the correlation id of the request after it.
pub proof fn law_silence_is_judged(answer: Seq<u8>)
    ensures
        ({
            let verdict = server_log::spec_judge_silence(answer);
            if answer.len() >= 4 && answer.take(4) == seq![0u8, 0u8, 5u8, 21u8] {
                verdict == VerdictView::Pass
            } else {
                verdict is Fail
            }
        }),
{
    if answer.len() >= 4 {
        let head = answer.take(4);
        assert(head[0] == answer[0] && head[1] == answer[1] && head[2] == answer[2] && head[3]
            == answer[3]);
        if server_log::be_i32(answer) == 1_301 {
            assert(answer[0] == 0 && answer[1] == 0 && answer[2] == 5 && answer[3] == 21);
            assert(head =~= seq![0u8, 0u8, 5u8, 21u8]);
        }
    }
}

/// A pass of that check rests on what was read last, which answers what was asked
/// after the silence.
#[verifier::rlimit(60)]
#[verifier::spinoff_prover]
pub proof fn law_silence_passes(ctx: ServerCtx, tape: Seq<Event>, to: int)
    requires
        verdicts::passed(ServerCheck::ProduceAcksZeroIsSilent, ctx, tape, to),
    ensures
        0 < to <= tape.len(),
        tape[to - 1] matches Event::Frame(bytes) && bytes@.len() >= 4 && bytes@.take(4) == seq![
            0u8,
            0u8,
            5u8,
            21u8,
        ],
{
    if 0 < to <= tape.len() {
        match tape[to - 1] {
            Event::Frame(bytes) => {
                law_silence_is_judged(bytes@);
            },
            _ => {},
        }
    }
}

/// A compressed batch passes exactly if it comes back at its length, a batch's
/// head at the least, and with every byte as it was sent beside those that the
/// offset and the leader epoch stand in.
pub proof fn law_passthrough_is_judged(sent: Seq<u8>, got: Seq<u8>)
    ensures
        ({
            let verdict = server_log::spec_judge_passthrough(sent, got);
            if got.len() == sent.len() >= 20 && (forall|i: int|
                (8 <= i < 12 || 16 <= i < sent.len()) ==> #[trigger] got[i] == sent[i]) {
                verdict == VerdictView::Pass
            } else {
                verdict is Fail
            }
        }),
{
}

/// A fetch that comes to records: its last answer holds them, without an error
/// and, where the topic is identified, under its id. Nothing is decoded on the
/// way.
pub proof fn lemma_fetched(
    ctx: ServerCtx,
    tape: Seq<Event>,
    at: int,
    conn: usize,
    version: i16,
    addressing: Addressing,
    topic: Seq<char>,
    topic_id: TopicId,
    attempt: int,
    last: Seq<char>,
)
    requires
        0 <= at,
    ensures
        log_flows::spec_run_fetch(
            ctx,
            tape,
            at,
            conn,
            version,
            addressing,
            topic,
            topic_id,
            attempt,
            last,
        ) matches Ok((got, to)) ==> {
            &&& at < to <= tape.len()
            &&& verdicts::answer_at(tape, to - 1) matches Some(Response::Fetch(answer)) && {
                &&& answer.error.code == 0
                &&& verdicts::fetched_in(answer) matches Some(row) && row.error.code == 0
                    && verdicts::bytes_in(row) == got
                &&& addressing == Addressing::TopicId ==> answer.topics@[0].topic_id@ == topic_id@
            }
            &&& got.len() > 0
            &&& forall|k: int| at <= k < to ==> !(#[trigger] tape[k] is Decoded)
        },
    decreases ctx.config.spec_settle_attempts() - attempt,
{
    if attempt < ctx.config.spec_settle_attempts() {
        match log_flows::spec_fetch_once(tape, at, conn, version, addressing, topic, topic_id) {
            Ok((got, to)) => {
                if got.len() == 0 {
                    lemma_fetched(
                        ctx,
                        tape,
                        to + 1,
                        conn,
                        version,
                        addressing,
                        topic,
                        topic_id,
                        attempt + 1,
                        last,
                    );
                }
            },
            Err(HaltView::Broke(ErrorView::Violation(details), to)) => {
                lemma_fetched(
                    ctx,
                    tape,
                    to + 1,
                    conn,
                    version,
                    addressing,
                    topic,
                    topic_id,
                    attempt + 1,
                    details,
                );
            },
            Err(_) => {},
        }
    }
}

/// Whether what was decoded at a place on the tape is what was fetched just
/// before, and intact.
pub open spec fn is_intact_at(tape: Seq<Event>, k: int, sent: Seq<u8>) -> bool {
    &&& tape[k] matches Event::Decoded(decoded) && (verdicts::fetched_at(tape, k - 1) matches Some(
        row,
    ) && row.error.code == 0 && is_intact(sent, verdicts::bytes_in(row), decoded))
}

proof fn lemma_sweep_is_intact(
    ctx: ServerCtx,
    tape: Seq<Event>,
    at: int,
    produced: ProducedView,
    versions: Seq<i16>,
    i: int,
)
    requires
        0 <= at,
        0 <= i <= versions.len(),
    ensures
        server_log::spec_fetch_sweep(ctx, tape, at, produced, versions, i) matches Ok(
            (VerdictView::Pass, to),
        ) ==> {
            &&& to >= at + 2 * (versions.len() - i)
            &&& forall|k: int| at <= k < to && #[trigger] tape[k] is Decoded ==> is_intact_at(
                tape,
                k,
                produced.sent,
            )
        },
    decreases versions.len() - i,
{
    if i < versions.len() {
        let nothing = "fetch returned no records"@;
        lemma_fetched(
            ctx,
            tape,
            at,
            produced.conn,
            versions[i],
            Addressing::Name,
            produced.topic,
            produced.topic_id,
            0,
            nothing,
        );
        match log_flows::spec_run_fetch(
            ctx,
            tape,
            at,
            produced.conn,
            versions[i],
            Addressing::Name,
            produced.topic,
            produced.topic_id,
            0,
            nothing,
        ) {
            Ok((got, to)) => match tape::spec_decode(tape, to, got) {
                Ok((decoded, next)) => {
                    law_served_batches_are_judged(produced.sent, got, decoded);
                    lemma_sweep_is_intact(ctx, tape, next, produced, versions, i + 1);
                },
                Err(_) => {},
            },
            Err(_) => {},
        }
    }
}

/// A pass of the fetch by name rests on everything that was decoded on the way:
/// for every version there was an answer and a decoding of it, and each was the
/// batch that was written, intact.
#[verifier::rlimit(60)]
#[verifier::spinoff_prover]
pub proof fn law_fetches_by_name_pass(
    ctx: ServerCtx,
    tape: Seq<Event>,
    versions: Seq<i16>,
    produced: ProducedView,
    at: int,
    to: int,
)
    requires
        0 <= at,
        verdicts::passed(ServerCheck::FetchBatchIntegrity, ctx, tape, to),
        ctx.spec_versions(0, "Fetch"@, FETCH, ctx.schema.fetch.min, flows::FETCH_NAME_MAX) == Ok::<
            Seq<i16>,
            HaltView,
        >(versions),
        flows::spec_produce_flow(ctx, tape, 0, "fetch"@, Addressing::Name) == Ok::<
            (ProducedView, int),
            HaltView,
        >((produced, at)),
    ensures
        to >= at + 2 * versions.len(),
        forall|k: int|
            at <= k < to && #[trigger] tape[k] is Decoded ==> is_intact_at(tape, k, produced.sent),
{
    lemma_sweep_is_intact(ctx, tape, at, produced, versions, 0);
}

/// A pass of the fetch by id rests on the last answer, which echoes the id, and
/// on its decoding: the batch that was written, intact.
#[verifier::rlimit(60)]
#[verifier::spinoff_prover]
pub proof fn law_fetches_by_id_pass(
    ctx: ServerCtx,
    tape: Seq<Event>,
    produced: ProducedView,
    at: int,
    to: int,
)
    requires
        0 <= at,
        verdicts::passed(ServerCheck::FetchTopicId, ctx, tape, to),
        flows::spec_produce_flow(ctx, tape, 0, "fetch-id"@, Addressing::Name) == Ok::<
            (ProducedView, int),
            HaltView,
        >((produced, at)),
    ensures
        is_intact_at(tape, to - 1, produced.sent),
        verdicts::answer_at(tape, to - 2) matches Some(Response::Fetch(answer))
            && answer.topics@[0].topic_id@ == produced.topic_id@,
{
    let nothing = "fetch returned no records"@;
    let version = ctx.spec_version(
        0,
        "Fetch"@,
        FETCH,
        flows::FETCH_ID_MIN,
        ctx.schema.fetch.max,
    )->Ok_0;
    lemma_fetched(
        ctx,
        tape,
        at,
        produced.conn,
        version,
        Addressing::TopicId,
        produced.topic,
        produced.topic_id,
        0,
        nothing,
    );
    match log_flows::spec_run_fetch(
        ctx,
        tape,
        at,
        produced.conn,
        version,
        Addressing::TopicId,
        produced.topic,
        produced.topic_id,
        0,
        nothing,
    ) {
        Ok((got, read)) => match tape::spec_decode(tape, read, got) {
            Ok((decoded, _)) => {
                law_served_batches_are_judged(produced.sent, got, decoded);
            },
            Err(_) => {},
        },
        Err(_) => {},
    }
}

/// Whether a ListOffsets answer gives an offset for a topic without an error.
#[verifier::opaque]
pub open spec fn gives(tape: Seq<Event>, i: int, topic: Seq<char>, offset: i64) -> bool {
    verdicts::answer_at(tape, i) matches Some(Response::ListOffsets(topics)) && exists|j: int|
        0 <= j < topics@.len() && (#[trigger] topics@[j]).name@ == topic
            && topics@[j].partitions@.len() > 0 && topics@[j].partitions@[0].error.code == 0
            && topics@[j].partitions@[0].offset == offset
}

proof fn lemma_gives(
    tape: Seq<Event>,
    at: int,
    conn: usize,
    version: i16,
    topic: Seq<char>,
    timestamp: i64,
    correlation: i32,
)
    ensures
        log_flows::spec_list_offsets_at(
            tape,
            at,
            conn,
            version,
            topic,
            timestamp,
            correlation,
        ) matches Ok((offset, to)) ==> to == at + 1 && gives(tape, at, topic, offset),
{
    reveal(gives);
    match log_flows::spec_list_offsets(tape, at, conn, version, topic, timestamp, correlation) {
        Ok((topics, _)) => {
            calibration::lemma_first_where(topics@, find::offsets_named(topic));
            match find::first_where(topics@, find::offsets_named(topic)) {
                Some(t) => {
                    let j = choose|j: int| 0 <= j < topics@.len() && topics@[j] == t;
                    assert(topics@[j].name@ == topic);
                },
                None => {},
            }
        },
        Err(_) => {},
    }
}

proof fn lemma_sweep_spans(
    tape: Seq<Event>,
    at: int,
    conn: usize,
    topic: Seq<char>,
    records: i64,
    versions: Seq<i16>,
    i: int,
    k: int,
)
    requires
        0 <= i <= versions.len(),
    ensures
        server_log::spec_span_sweep(tape, at, conn, topic, records, versions, i) matches Ok(
            (VerdictView::Pass, to),
        ) ==> {
            &&& to == at + 2 * (versions.len() - i)
            &&& 0 <= k < versions.len() - i ==> gives(tape, at + 2 * k, topic, 0) && gives(
                tape,
                at + 2 * k + 1,
                topic,
                records,
            )
        },
    decreases versions.len() - i,
{
    if i < versions.len() {
        let first = ctx::spec_correlation(41, 2 * i);
        let second = ctx::spec_correlation(42, 2 * i);
        lemma_gives(tape, at, conn, versions[i], topic, wire::EARLIEST_TIMESTAMP, first);
        lemma_gives(tape, at + 1, conn, versions[i], topic, wire::LATEST_TIMESTAMP, second);
        lemma_sweep_spans(tape, at + 2, conn, topic, records, versions, i + 1, k - 1);
        match server_log::spec_span_sweep(tape, at, conn, topic, records, versions, i) {
            Ok((VerdictView::Pass, _)) => {
                let earliest = log_flows::spec_list_offsets_at(
                    tape,
                    at,
                    conn,
                    versions[i],
                    topic,
                    wire::EARLIEST_TIMESTAMP,
                    first,
                )->Ok_0.0;
                let latest = log_flows::spec_list_offsets_at(
                    tape,
                    at + 1,
                    conn,
                    versions[i],
                    topic,
                    wire::LATEST_TIMESTAMP,
                    second,
                )->Ok_0.0;
                law_log_ends_are_judged(versions[i], earliest, latest, records);
                assert(at + 2 * k == at + 2 + 2 * (k - 1));
            },
            _ => {},
        }
    }
}

/// A pass of the log's ends rests on two answers for every version: 0 for the
/// start, and for the end as many records as the suite's own batch holds.
#[verifier::rlimit(60)]
#[verifier::spinoff_prover]
pub proof fn law_log_ends_pass(
    ctx: ServerCtx,
    tape: Seq<Event>,
    versions: Seq<i16>,
    produced: ProducedView,
    at: int,
    to: int,
    k: int,
)
    requires
        verdicts::passed(ServerCheck::ListOffsetsEarliestLatest, ctx, tape, to),
        ctx.spec_versions(
            0,
            "ListOffsets"@,
            LIST_OFFSETS,
            ctx.schema.list_offsets.min,
            ctx.schema.list_offsets.max,
        ) == Ok::<Seq<i16>, HaltView>(versions),
        flows::spec_produce_flow(ctx, tape, 0, "listoffsets"@, Addressing::Name) == Ok::<
            (ProducedView, int),
            HaltView,
        >((produced, at)),
        0 <= k < versions.len(),
    ensures
        to == at + 1 + 2 * versions.len(),
        tape[at] matches Event::Decoded(Ok(batches)) && {
            &&& gives(tape, at + 1 + 2 * k, produced.topic, 0)
            &&& gives(tape, at + 1 + 2 * k + 1, produced.topic, batch::total_records(batches@))
        },
{
    let decoded = tape::spec_decode(tape, at, produced.sent)->Ok_0.0;
    let records = server_log::spec_own_records(decoded, at + 1)->Ok_0.0;
    lemma_sweep_spans(tape, at + 1, produced.conn, produced.topic, records, versions, 0, k);
}

/// A fetch that settles: its last answer is the partition, without an error.
pub proof fn lemma_settled(
    ctx: ServerCtx,
    tape: Seq<Event>,
    at: int,
    conn: usize,
    version: i16,
    topic: Seq<char>,
    offset: i64,
    isolation_level: i8,
    base: i32,
    attempt: int,
    last: ErrorView,
)
    ensures
        log_flows::spec_fetch_settled(
            ctx,
            tape,
            at,
            conn,
            version,
            topic,
            offset,
            isolation_level,
            base,
            attempt,
            last,
        ) matches Ok((row, to)) ==> verdicts::fetched_at(tape, to - 1) == Some(row)
            && row.error.code == 0,
    decreases ctx.config.spec_settle_attempts() - attempt,
{
    if attempt < ctx.config.spec_settle_attempts() {
        match tape::spec_pause_between(tape, at, attempt) {
            Ok((_, paused)) => match log_flows::spec_fetch_partition(
                tape,
                paused,
                conn,
                version,
                topic,
                0,
                offset,
                isolation_level,
                ctx::spec_correlation(base, attempt),
            ) {
                Err(HaltView::Broke(ErrorView::Violation(details), next)) => {
                    lemma_settled(
                        ctx,
                        tape,
                        next,
                        conn,
                        version,
                        topic,
                        offset,
                        isolation_level,
                        base,
                        attempt + 1,
                        ErrorView::Violation(details),
                    );
                },
                _ => {},
            },
            Err(_) => {},
        }
    }
}

/// Whether a place on the tape holds a fetch that gave a batch back as it was
/// sent, but for where it landed.
pub open spec fn is_passed_through(tape: Seq<Event>, i: int, sent: Seq<u8>) -> bool {
    verdicts::fetched_at(tape, i) matches Some(row) && row.error.code == 0 && {
        let got = verdicts::bytes_in(row);
        &&& got.len() == sent.len() >= 20
        &&& forall|k: int| (8 <= k < 12 || 16 <= k < sent.len()) ==> #[trigger] got[k] == sent[k]
    }
}

/// A pass of the compressed batch rests on the last fetch, which gave back what
/// was encoded.
#[verifier::rlimit(60)]
#[verifier::spinoff_prover]
pub proof fn law_passthrough_passes(ctx: ServerCtx, tape: Seq<Event>, to: int)
    requires
        verdicts::passed(ServerCheck::ProduceCompressedPassthrough, ctx, tape, to),
    ensures
        exists|e: int|
            0 <= e < tape.len() && (#[trigger] tape[e] matches Event::Encoded(sent)
                && is_passed_through(tape, to - 1, sent@)),
{
    let create = ctx.spec_version(
        0,
        "CreateTopics"@,
        wire::CREATE_TOPICS,
        ctx.schema.create_topics.min,
        ctx.schema.create_topics.max,
    )->Ok_0;
    let produce = ctx.spec_version(
        0,
        "Produce"@,
        wire::PRODUCE,
        ctx.schema.produce.min,
        flows::PRODUCE_NAME_MAX,
    )->Ok_0;
    let fetch = ctx.spec_version(
        0,
        "Fetch"@,
        FETCH,
        ctx.schema.fetch.min,
        flows::FETCH_NAME_MAX,
    )->Ok_0;
    let metadata = ctx.spec_version(
        0,
        "Metadata"@,
        wire::METADATA,
        1,
        ctx.schema.metadata.max,
    )->Ok_0;
    let (bootstrap, connected) = tape::spec_connect(tape, 0, ctx.addr@)->Ok_0;
    let (topic, named) = ctx::spec_fresh_topic(ctx, tape, connected, "gzip"@)->Ok_0;
    let (_, created) = flows::spec_create_topic(
        ctx,
        tape,
        named,
        bootstrap,
        create,
        topic,
        false,
        950,
    )->Ok_0;
    let ((conn, _), led) = flows::spec_connect_to_leader(
        ctx,
        tape,
        created,
        bootstrap,
        metadata,
        topic,
        951,
        0,
    )->Ok_0;
    let (sent, encoded) = server_log::spec_gzip_sent(tape, led)->Ok_0;
    let (taker, written) = server_log::spec_gzip_leg(
        ctx,
        tape,
        encoded,
        bootstrap,
        conn,
        produce,
        metadata,
        topic,
        sent@,
        0,
        ""@,
    )->Ok_0;
    let never = ErrorView::Infra("no fetch attempts were made"@);
    lemma_settled(
        ctx,
        tape,
        written,
        taker,
        fetch,
        topic,
        0,
        wire::READ_UNCOMMITTED,
        970,
        0,
        never,
    );
    let (row, _) = log_flows::spec_fetch_settled(
        ctx,
        tape,
        written,
        taker,
        fetch,
        topic,
        0,
        wire::READ_UNCOMMITTED,
        970,
        0,
        never,
    )->Ok_0;
    law_passthrough_is_judged(sent@, verdicts::bytes_in(row));
    assert(tape[encoded - 1] == Event::Encoded(sent));
}

} // verus!

//! Checks on writing to a log, reading it back, and asking where it ends.

use vstd::prelude::*;
use vstd::string::*;

use crate::checks::asks;
use crate::checks::batch;
use crate::checks::batch::{PROBE_FIRST_TIMESTAMP, PROBE_RECORDS};
use crate::checks::ctx;
use crate::checks::ctx::{halt_at_version, ServerCtx};
use crate::checks::find;
use crate::checks::flows;
use crate::checks::flows::{
    Addressing, ProducedTopic, ProducedView, ALL_REPLICAS, FETCH_ID_MIN, FETCH_NAME_MAX,
    PRODUCE_NAME_MAX,
};
use crate::checks::log_flows;
use crate::checks::tape;
use crate::checks::tape::{
    copy_bytes, doing, doing_ref, error, fail, skip, ActionOf, ErrorView, Event, Flow, FlowView,
    HaltView, Label,
};
use crate::text;
use crate::text::line;
use crate::wire;
use crate::wire::{
    FetchedRow, RecordBatch, RequestOf, TopicOf, CREATE_TOPICS, EARLIEST_TIMESTAMP, FETCH, LATEST_TIMESTAMP,
    LIST_OFFSETS, METADATA, PRODUCE, READ_UNCOMMITTED, UNSET_OFFSET,
};
use crate::{Verdict, VerdictView};

verus! {

/// The offset that the first batch of a fresh topic was given.
pub open spec fn spec_judge_first_offset(base_offset: i64) -> VerdictView {
    if base_offset != 0 {
        VerdictView::Fail(
            "first batch in a fresh topic was assigned base offset "@ + text::dec(
                base_offset as int,
            ) + ", expected 0"@,
        )
    } else {
        VerdictView::Pass
    }
}

pub open spec fn spec_produce_basic(ctx: ServerCtx, tape: Seq<Event>) -> FlowView<VerdictView> {
    match flows::spec_produce_flow(
        ctx,
        tape,
        0,
        "produce"@,
        Addressing::Name,
    ) {
        Err(halt) => Err(halt),
        Ok((produced, at)) => tape::spec_rule(spec_judge_first_offset(produced.base_offset), at),
    }
}

/// Acknowledges a produce to a fresh topic at its first offset.
pub fn produce_basic(ctx: &ServerCtx, tape: &Vec<Event>) -> (r: Flow<Verdict>)
    ensures
        tape::ran(r) == spec_produce_basic(*ctx, tape@),
{
    let (produced, at) = flows::produce_flow(ctx, tape, 0, "produce", Addressing::Name)?;
    if produced.base_offset != 0 {
        return Err(
            fail(
                line("first batch in a fresh topic was assigned base offset ")
                    .num(produced.base_offset).lit(", expected 0").done(),
                at,
            ),
        );
    }
    Ok((Verdict::Pass, at))
}

pub open spec fn spec_produce_topic_id(ctx: ServerCtx, tape: Seq<Event>) -> FlowView<VerdictView> {
    match flows::spec_produce_flow(
        ctx,
        tape,
        0,
        "produce-id"@,
        Addressing::TopicId,
    ) {
        Err(halt) => Err(halt),
        Ok((_, at)) => Ok((VerdictView::Pass, at)),
    }
}

/// Accepts a produce addressed by topic id.
pub fn produce_topic_id(ctx: &ServerCtx, tape: &Vec<Event>) -> (r: Flow<Verdict>)
    ensures
        tape::ran(r) == spec_produce_topic_id(*ctx, tape@),
{
    let (_, at) = flows::produce_flow(ctx, tape, 0, "produce-id", Addressing::TopicId)?;
    Ok((Verdict::Pass, at))
}

/// The signed value of eight bytes, the most significant first.
pub open spec fn be_i64(b: Seq<u8>) -> int {
    (if b[0] >= 128 { b[0] - 256 } else { b[0] as int }) * 0x100_0000_0000_0000
        + b[1] * 0x1_0000_0000_0000 + b[2] * 0x100_0000_0000 + b[3] * 0x1_0000_0000
        + b[4] * 0x100_0000 + b[5] * 0x1_0000 + b[6] * 0x100 + b[7]
}

/// The signed value of four bytes, the most significant first.
pub open spec fn be_i32(b: Seq<u8>) -> int {
    (if b[0] >= 128 { b[0] - 256 } else { b[0] as int }) * 0x100_0000 + b[1] * 0x1_0000
        + b[2] * 0x100 + b[3]
}

fn read_be_i64(b: &Vec<u8>) -> (r: i64)
    requires
        b@.len() >= 8,
    ensures
        r == be_i64(b@),
{
    let high: i64 = if b[0] >= 128 { b[0] as i64 - 256 } else { b[0] as i64 };
    high * 0x100_0000_0000_0000 + b[1] as i64 * 0x1_0000_0000_0000 + b[2] as i64
        * 0x100_0000_0000 + b[3] as i64 * 0x1_0000_0000 + b[4] as i64 * 0x100_0000 + b[5] as i64
        * 0x1_0000 + b[6] as i64 * 0x100 + b[7] as i64
}

fn read_be_i32(b: &Vec<u8>) -> (r: i32)
    requires
        b@.len() >= 4,
    ensures
        r == be_i32(b@),
{
    let high: i32 = if b[0] >= 128 { b[0] as i32 - 256 } else { b[0] as i32 };
    high * 0x100_0000 + b[1] as i32 * 0x1_0000 + b[2] as i32 * 0x100 + b[3] as i32
}

/// The first place at or after `i` where the two differ.
pub open spec fn first_difference(a: Seq<u8>, b: Seq<u8>, i: int) -> Option<int>
    decreases b.len() - i,
{
    if !(0 <= i < b.len()) {
        None
    } else if a[i] != b[i] {
        Some(i)
    } else {
        first_difference(a, b, i + 1)
    }
}

fn find_difference(a: &Vec<u8>, b: &Vec<u8>, from: usize) -> (r: Option<usize>)
    requires
        a@.len() == b@.len(),
    ensures
        (match r {
            Some(i) => Some(i as int),
            None => None,
        }) == first_difference(a@, b@, from as int),
{
    let mut i: usize = from;
    while i < b.len()
        invariant
            a@.len() == b@.len(),
            first_difference(a@, b@, from as int) == first_difference(a@, b@, i as int),
        decreases b@.len() - i,
    {
        if a[i] != b[i] {
            return Some(i);
        }
        i = i + 1;
    }
    None
}

/// The bytes of a batch before the checksummed part: the base offset, the
/// length and the leader epoch.
pub const BEFORE_CRC: usize = 16;

/// A fetched record set against the produced bytes: one batch, the same
/// from the magic byte on, at base offset 0. Its first sixteen bytes sit
/// outside the checksum; of those only the base offset is looked at.
pub open spec fn spec_batch_integrity(
    sent: Seq<u8>,
    got: Seq<u8>,
    decoded: Result<Vec<RecordBatch>, String>,
) -> VerdictView {
    match decoded {
        Err(e) => VerdictView::Fail("fetched record set does not decode: "@ + e@),
        Ok(batches) => if batches@.len() != 1 {
            VerdictView::Fail(
                "fetched "@ + text::dec(batches@.len() as int)
                    + " batches where exactly the produced one was expected"@,
            )
        } else if got.len() != sent.len() {
            VerdictView::Fail(
                "fetched batch is "@ + text::dec(got.len() as int) + " byte(s), produced was "@
                    + text::dec(sent.len() as int),
            )
        } else {
            match first_difference(got, sent, BEFORE_CRC as int) {
                Some(i) => VerdictView::Fail(
                    "stored batch differs from the produced bytes starting at byte "@ + text::dec(
                        i,
                    ) + " (crc-covered region)"@,
                ),
                None => if got.len() < 8 {
                    VerdictView::Fail("fetched batch is too short to carry a base offset"@)
                } else if be_i64(got) != 0 {
                    VerdictView::Fail(
                        "fetched batch carries base offset "@ + text::dec(be_i64(got))
                            + ", expected 0"@,
                    )
                } else {
                    VerdictView::Pass
                },
            }
        },
    }
}

pub fn batch_integrity(
    sent: &Vec<u8>,
    got: &Vec<u8>,
    decoded: &Result<Vec<RecordBatch>, String>,
) -> (r: Verdict)
    ensures
        r@ == spec_batch_integrity(sent@, got@, *decoded),
{
    let batches = match decoded {
        Err(e) => return Verdict::Fail {
            details: line("fetched record set does not decode: ").lit(e.as_str()).done(),
        },
        Ok(batches) => batches,
    };
    if batches.len() != 1 {
        return Verdict::Fail {
            details: line("fetched ").count(batches.len() as u128).lit(
                " batches where exactly the produced one was expected",
            ).done(),
        };
    }
    if got.len() != sent.len() {
        return Verdict::Fail {
            details: line("fetched batch is ").count(got.len() as u128).lit(
                " byte(s), produced was ",
            ).count(sent.len() as u128).done(),
        };
    }
    if let Some(i) = find_difference(got, sent, BEFORE_CRC) {
        return Verdict::Fail {
            details: line("stored batch differs from the produced bytes starting at byte ").count(
                i as u128,
            ).lit(" (crc-covered region)").done(),
        };
    }
    if got.len() < 8 {
        return Verdict::Fail {
            details: String::from_str("fetched batch is too short to carry a base offset"),
        };
    }
    let base_offset: i64 = read_be_i64(got);
    if base_offset != 0 {
        return Verdict::Fail {
            details: line("fetched batch carries base offset ").num(base_offset).lit(
                ", expected 0",
            ).done(),
        };
    }
    Verdict::Pass
}

/// What is made of fetched bytes once they are decoded.
pub open spec fn spec_fetched_verdict(
    tape: Seq<Event>,
    at: int,
    sent: Seq<u8>,
    got: Seq<u8>,
) -> FlowView<VerdictView> {
    match tape::spec_decode(tape, at, got) {
        Err(halt) => Err(halt),
        Ok((decoded, at)) => Ok((spec_batch_integrity(sent, got, decoded), at)),
    }
}

fn fetched_verdict(tape: &Vec<Event>, at: usize, sent: &Vec<u8>, got: &Vec<u8>) -> (r: Flow<
    Verdict,
>)
    ensures
        tape::ran(r) == spec_fetched_verdict(tape@, at as int, sent@, got@),
{
    let (decoded, at) = tape::decode(tape, at, got)?;
    Ok((batch_integrity(sent, got, decoded), at))
}

/// The fetch of a produced topic at the versions from the `i`th on. What
/// comes back must be the same bytes each time.
pub open spec fn spec_fetch_sweep(
    ctx: ServerCtx,
    tape: Seq<Event>,
    at: int,
    produced: ProducedView,
    versions: Seq<i16>,
    i: int,
) -> FlowView<VerdictView>
    decreases versions.len() - i,
{
    if !(0 <= i < versions.len()) {
        Ok((VerdictView::Pass, at))
    } else {
        match log_flows::spec_run_fetch(
            ctx,
            tape,
            at,
            produced.conn,
            versions[i],
            Addressing::Name,
            produced.topic,
            produced.topic_id,
            0,
            "fetch returned no records"@,
        ) {
            Err(halt) => Err(ctx::spec_halt_at_version(halt, versions[i])),
            Ok((got, at)) => match spec_fetched_verdict(tape, at, produced.sent, got) {
                Err(halt) => Err(halt),
                Ok((VerdictView::Fail(details), at)) => Ok(
                    (
                        VerdictView::Fail(
                            "v"@ + text::dec(versions[i] as int) + ": "@ + details,
                        ),
                        at,
                    ),
                ),
                Ok((_, at)) => spec_fetch_sweep(ctx, tape, at, produced, versions, i + 1),
            },
        }
    }
}

fn fetch_sweep(
    ctx: &ServerCtx,
    tape: &Vec<Event>,
    at: usize,
    produced: &ProducedTopic,
    versions: &Vec<i16>,
) -> (r: Flow<Verdict>)
    ensures
        tape::ran(r) == spec_fetch_sweep(*ctx, tape@, at as int, produced@, versions@, 0),
{
    let mut here: usize = at;
    let mut i: usize = 0;
    while i < versions.len()
        invariant
            i <= versions@.len(),
            spec_fetch_sweep(*ctx, tape@, at as int, produced@, versions@, 0) == spec_fetch_sweep(
                *ctx,
                tape@,
                here as int,
                produced@,
                versions@,
                i as int,
            ),
        decreases versions@.len() - i,
    {
        let version: i16 = versions[i];
        let (got, next) = match log_flows::run_fetch(
            ctx,
            tape,
            here,
            produced.conn,
            version,
            Addressing::Name,
            produced.topic.as_str(),
            produced.topic_id,
        ) {
            Ok(done) => done,
            Err(halt) => return Err(halt_at_version(halt, version)),
        };
        let (verdict, next) = fetched_verdict(tape, next, &produced.sent, &got)?;
        if let Verdict::Fail { details } = verdict {
            return Ok(
                (
                    Verdict::Fail {
                        details: line("v").num(version as i64).lit(": ").lit(
                            details.as_str(),
                        ).done(),
                    },
                    next,
                ),
            );
        }
        here = next;
        i = i + 1;
    }
    Ok((Verdict::Pass, here))
}

pub open spec fn spec_fetch_batch_integrity(ctx: ServerCtx, tape: Seq<Event>) -> FlowView<
    VerdictView,
> {
    match ctx.spec_versions(0, "Fetch"@, FETCH, ctx.schema.fetch.min, FETCH_NAME_MAX) {
        Err(halt) => Err(halt),
        Ok(versions) => match flows::spec_produce_flow(ctx, tape, 0, "fetch"@, Addressing::Name) {
            Err(halt) => Err(halt),
            Ok((produced, at)) => spec_fetch_sweep(ctx, tape, at, produced, versions, 0),
        },
    }
}

/// Returns the produced batch bit-exact, at every version it serves.
pub fn fetch_batch_integrity(ctx: &ServerCtx, tape: &Vec<Event>) -> (r: Flow<Verdict>)
    ensures
        tape::ran(r) == spec_fetch_batch_integrity(*ctx, tape@),
{
    let versions = ctx.versions(0, "Fetch", FETCH, ctx.schema.fetch.min, FETCH_NAME_MAX)?;
    let (produced, at) = flows::produce_flow(ctx, tape, 0, "fetch", Addressing::Name)?;
    fetch_sweep(ctx, tape, at, &produced, &versions)
}

pub open spec fn spec_fetch_topic_id(ctx: ServerCtx, tape: Seq<Event>) -> FlowView<VerdictView> {
    match ctx.spec_version(
        0,
        "Fetch"@,
        FETCH,
        FETCH_ID_MIN,
        ctx.schema.fetch.max,
    ) {
        Err(halt) => Err(halt),
        Ok(version) => match flows::spec_produce_flow(
            ctx,
            tape,
            0,
            "fetch-id"@,
            Addressing::Name,
        ) {
            Err(halt) => Err(halt),
            Ok((produced, at)) => if produced.topic_id@ == wire::zero_id() {
                Err(tape::spec_skip("CreateTopics did not return a topic id (needs v7+)"@, at))
            } else {
                match log_flows::spec_run_fetch(
                    ctx,
                    tape,
                    at,
                    produced.conn,
                    version,
                    Addressing::TopicId,
                    produced.topic,
                    produced.topic_id,
                    0,
                    "fetch returned no records"@,
                ) {
                    Err(halt) => Err(halt),
                    Ok((got, at)) => spec_fetched_verdict(tape, at, produced.sent, got),
                }
            },
        },
    }
}

/// Answers a fetch by topic id with that id and the produced batch.
pub fn fetch_topic_id(ctx: &ServerCtx, tape: &Vec<Event>) -> (r: Flow<Verdict>)
    ensures
        tape::ran(r) == spec_fetch_topic_id(*ctx, tape@),
{
    let version: i16 = ctx.version(0, "Fetch", FETCH, FETCH_ID_MIN, ctx.schema.fetch.max)?;
    let (produced, at) = flows::produce_flow(ctx, tape, 0, "fetch-id", Addressing::Name)?;
    if wire::is_zero_id(&produced.topic_id) {
        return Err(skip(String::from_str("CreateTopics did not return a topic id (needs v7+)"), at));
    }
    let (got, at) = log_flows::run_fetch(
        ctx,
        tape,
        at,
        produced.conn,
        version,
        Addressing::TopicId,
        produced.topic.as_str(),
        produced.topic_id,
    )?;
    fetched_verdict(tape, at, &produced.sent, &got)
}

/// Far past anything the probe batch could have written.
pub const BEYOND: i64 = 1_000_000;

/// What is said of a fetch past the end of the log.
pub open spec fn spec_judge_beyond(row: FetchedRow) -> VerdictView {
    if row.error.code == wire::OFFSET_OUT_OF_RANGE {
        VerdictView::Pass
    } else if row.error.ok() {
        VerdictView::Fail(
            "fetch at offset "@ + text::dec(BEYOND as int) + " of a log with high watermark "@
                + text::dec(row.high_watermark as int) + " answered NONE with "@ + text::dec(
                log_flows::spec_records(row).len() as int,
            ) + " record byte(s) — a consumer cannot tell this from being caught up"@,
        )
    } else {
        VerdictView::Fail(
            "fetch at offset "@ + text::dec(BEYOND as int) + " answered "@ + row.error.shown@
                + ", expected OFFSET_OUT_OF_RANGE"@,
        )
    }
}

pub open spec fn spec_fetch_offset_out_of_range(
    ctx: ServerCtx,
    tape: Seq<Event>,
) -> FlowView<VerdictView> {
    match ctx.spec_version(
        0,
        "Fetch"@,
        FETCH,
        ctx.schema.fetch.min,
        FETCH_NAME_MAX,
    ) {
        Err(halt) => Err(halt),
        Ok(version) => match flows::spec_produce_flow(
            ctx,
            tape,
            0,
            "outofrange"@,
            Addressing::Name,
        ) {
            Err(halt) => Err(halt),
            Ok((produced, at)) => match asks::spec_ask_fetch(
                tape,
                at,
                Label::Final("Fetch"@),
                ActionOf::Call {
                    conn: produced.conn,
                    version,
                    correlation: 91,
                    request: RequestOf::Fetch {
                        topic: TopicOf::Name(produced.topic),
                        partition: 0,
                        offset: BEYOND,
                        max_wait_ms: 500,
                        min_bytes: 0,
                        max_bytes: 1_048_576,
                        isolation_level: READ_UNCOMMITTED,
                    },
                },
            ) {
                Err(halt) => Err(halt),
                Ok((answer, at)) => match find::first_fetched(answer) {
                    None => Err(
                            tape::spec_fail(
                                "fetch response omits "@ + produced.topic + "[0]"@,
                                at,
                            ),
                        ),
                    Some(row) => tape::spec_rule(spec_judge_beyond(row), at),
                },
            },
        },
    }
}

/// Refuses a fetch past the end of the log. An empty answer is what a caught-
/// up consumer sees, so it would leave a client polling forever at a position
/// that will never exist.
pub fn fetch_offset_out_of_range(ctx: &ServerCtx, tape: &Vec<Event>) -> (r: Flow<Verdict>)
    ensures
        tape::ran(r) == spec_fetch_offset_out_of_range(*ctx, tape@),
{
    let version: i16 = ctx.version(0, "Fetch", FETCH, ctx.schema.fetch.min, FETCH_NAME_MAX)?;
    let (produced, at) = flows::produce_flow(ctx, tape, 0, "outofrange", Addressing::Name)?;
    let (answer, at) = asks::ask_fetch(
        tape,
        at,
        Label::Final("Fetch"),
        ActionOf::Call {
            conn: produced.conn,
            version,
            correlation: 91,
            request: RequestOf::Fetch {
                topic: TopicOf::Name(produced.topic.clone()),
                partition: 0,
                offset: BEYOND,
                max_wait_ms: 500,
                min_bytes: 0,
                max_bytes: 1_048_576,
                isolation_level: READ_UNCOMMITTED,
            },
        },
    )?;
    let row = match find::fetched_row(answer) {
        None => {
                return Err(
                    fail(
                        line("fetch response omits ").lit(produced.topic.as_str()).lit("[0]")
                            .done(),
                        at,
                    ),
                );
        },
        Some(found) => found,
    };
    if row.error.code == wire::OFFSET_OUT_OF_RANGE {
        return Ok((Verdict::Pass, at));
    }
    let held = log_flows::records_of(row);
    if row.error.is_ok() {
        return Err(
            fail(
                line("fetch at offset ").num(BEYOND).lit(" of a log with high watermark ")
                    .num(row.high_watermark).lit(" answered NONE with ").count(held.len() as u128)
                    .lit(" record byte(s) — a consumer cannot tell this from being caught up")
                    .done(),
                at,
            ),
        );
    }
    Err(
        fail(
            line("fetch at offset ").num(BEYOND).lit(" answered ").lit(row.error.shown.as_str())
                .lit(", expected OFFSET_OUT_OF_RANGE").done(),
            at,
        ),
    )
}

/// Both ends of a log that some records were produced to.
pub open spec fn spec_judge_ends(version: i16, earliest: i64, latest: i64, records: i64)
    -> VerdictView {
    if earliest != 0 {
        VerdictView::Fail(
            "v"@ + text::dec(version as int) + ": log start of a freshly created topic is "@
                + text::dec(earliest as int) + ", expected 0"@,
        )
    } else if latest.wrapping_sub(earliest) != records {
        VerdictView::Fail(
            "v"@ + text::dec(version as int) + ": log spans "@ + text::dec(
                latest.wrapping_sub(earliest) as int,
            ) + " offset(s) ("@ + text::dec(earliest as int) + ".."@ + text::dec(latest as int)
                + ") after producing "@ + text::dec(records as int) + " record(s)"@,
        )
    } else {
        VerdictView::Pass
    }
}

/// Asking for both ends of the produced log, at the versions from the `i`th
/// on. Either end alone can be faked by a constant; their difference has to
/// equal the record count.
pub open spec fn spec_span_sweep(
    tape: Seq<Event>,
    at: int,
    conn: usize,
    topic: Seq<char>,
    records: i64,
    versions: Seq<i16>,
    i: int,
) -> FlowView<VerdictView>
    decreases versions.len() - i,
{
    if !(0 <= i < versions.len()) {
        Ok((VerdictView::Pass, at))
    } else {
        let version = versions[i];
        match log_flows::spec_list_offsets_at(
            tape,
            at,
            conn,
            version,
            topic,
            EARLIEST_TIMESTAMP,
            ctx::spec_correlation(41, 2 * i),
        ) {
            Err(halt) => Err(ctx::spec_halt_at_version(halt, version)),
            Ok((earliest, at)) => match log_flows::spec_list_offsets_at(
                tape,
                at,
                conn,
                version,
                topic,
                LATEST_TIMESTAMP,
                ctx::spec_correlation(42, 2 * i),
            ) {
                Err(halt) => Err(ctx::spec_halt_at_version(halt, version)),
                Ok((latest, at)) => {
                    let verdict = spec_judge_ends(version, earliest, latest, records);
                    if verdict is Pass {
                        spec_span_sweep(tape, at, conn, topic, records, versions, i + 1)
                    } else {
                        Err(HaltView::Stop(verdict, at))
                    }
                },
            },
        }
    }
}

fn span_sweep(
    tape: &Vec<Event>,
    at: usize,
    conn: usize,
    topic: &str,
    records: i64,
    versions: &Vec<i16>,
) -> (r: Flow<Verdict>)
    requires
        versions@.len() <= 65536,
    ensures
        tape::ran(r) == spec_span_sweep(
            tape@,
            at as int,
            conn,
            topic@,
            records,
            versions@,
            0,
        ),
{
    let mut here: usize = at;
    let mut i: usize = 0;
    while i < versions.len()
        invariant
            i <= versions@.len(),
            versions@.len() <= 65536,
            spec_span_sweep(tape@, at as int, conn, topic@, records, versions@, 0)
                == spec_span_sweep(
                tape@,
                here as int,
                conn,
                topic@,
                records,
                versions@,
                i as int,
            ),
        decreases versions@.len() - i,
    {
        let version: i16 = versions[i];
        let step: u32 = 2 * i as u32;
        let (earliest, next) = match log_flows::list_offsets_at(
            tape,
            here,
            conn,
            version,
            topic,
            EARLIEST_TIMESTAMP,
            ctx::correlation(41, step),
        ) {
            Ok(done) => done,
            Err(halt) => return Err(halt_at_version(halt, version)),
        };
        let (latest, next) = match log_flows::list_offsets_at(
            tape,
            next,
            conn,
            version,
            topic,
            LATEST_TIMESTAMP,
            ctx::correlation(42, step),
        ) {
            Ok(done) => done,
            Err(halt) => return Err(halt_at_version(halt, version)),
        };
        if earliest != 0 {
            return Err(
                fail(
                    line("v").num(version as i64).lit(
                        ": log start of a freshly created topic is ",
                    ).num(earliest).lit(", expected 0").done(),
                    next,
                ),
            );
        }
        let spanned: i64 = latest.wrapping_sub(earliest);
        if spanned != records {
            return Err(
                fail(
                    line("v").num(version as i64).lit(": log spans ").num(spanned).lit(
                        " offset(s) (",
                    ).num(earliest).lit("..").num(latest).lit(") after producing ").num(
                        records,
                    ).lit(" record(s)").done(),
                    next,
                ),
            );
        }
        here = next;
        i = i + 1;
    }
    Ok((Verdict::Pass, here))
}

/// What the log-end check does with the decoded form of its own batch.
pub open spec fn spec_own_records(decoded: Result<Vec<RecordBatch>, String>, at: int) -> FlowView<
    i64,
> {
    match decoded {
        Ok(batches) => Ok((batch::total_records(batches@), at)),
        Err(e) => Err(
            tape::spec_error("suite produced a record set it cannot decode: "@ + e@, at),
        ),
    }
}

fn own_records(decoded: &Result<Vec<RecordBatch>, String>, at: usize) -> (r: Flow<i64>)
    ensures
        tape::ran(r) == spec_own_records(*decoded, at as int),
{
    match decoded {
        Ok(batches) => Ok((batch::count_records(batches), at)),
        Err(e) => Err(
            error(
                line("suite produced a record set it cannot decode: ").lit(e.as_str()).done(),
                at,
            ),
        ),
    }
}

pub open spec fn spec_list_offsets_earliest_latest(ctx: ServerCtx, tape: Seq<Event>) -> FlowView<
    VerdictView,
> {
    match ctx.spec_versions(
        0,
        "ListOffsets"@,
        LIST_OFFSETS,
        ctx.schema.list_offsets.min,
        ctx.schema.list_offsets.max,
    ) {
        Err(halt) => Err(halt),
        Ok(versions) => match flows::spec_produce_flow(
            ctx,
            tape,
            0,
            "listoffsets"@,
            Addressing::Name,
        ) {
            Err(halt) => Err(halt),
            Ok((produced, at)) => match tape::spec_decode(tape, at, produced.sent) {
                Err(halt) => Err(halt),
                Ok((decoded, at)) => match spec_own_records(decoded, at) {
                    Err(halt) => Err(halt),
                    Ok((records, at)) => spec_span_sweep(
                        tape,
                        at,
                        produced.conn,
                        produced.topic,
                        records,
                        versions,
                        0,
                    ),
                },
            },
        },
    }
}

/// Answers a log start and a log end that bracket exactly what was
/// produced, whichever version asks.
pub fn list_offsets_earliest_latest(ctx: &ServerCtx, tape: &Vec<Event>) -> (r: Flow<Verdict>)
    ensures
        tape::ran(r) == spec_list_offsets_earliest_latest(*ctx, tape@),
{
    let versions = ctx.versions(
        0,
        "ListOffsets",
        LIST_OFFSETS,
        ctx.schema.list_offsets.min,
        ctx.schema.list_offsets.max,
    )?;
    let (produced, at) = flows::produce_flow(ctx, tape, 0, "listoffsets", Addressing::Name)?;
    let (decoded, at) = tape::decode(tape, at, &produced.sent)?;
    let (records, at) = own_records(decoded, at)?;
    span_sweep(tape, at, produced.conn, produced.topic.as_str(), records, &versions)
}

/// One millisecond past the probe batch's last record.
pub const AFTER_EVERY_RECORD: i64 = 1_758_000_000_002;

/// The offset of the first record's time.
pub open spec fn spec_judge_first_time(first: i64) -> VerdictView {
    if first != 0 {
        VerdictView::Fail(
            "the batch's first timestamp ("@ + text::dec(PROBE_FIRST_TIMESTAMP as int)
                + ") answered offset "@ + text::dec(first as int) + ", not 0"@,
        )
    } else {
        VerdictView::Pass
    }
}

/// The offset of a time after every record.
pub open spec fn spec_judge_future(after: i64) -> VerdictView {
    if after == UNSET_OFFSET {
        VerdictView::Pass
    } else if after == PROBE_RECORDS {
        VerdictView::Fail(
            "a timestamp after every record answered the log end ("@ + text::dec(after as int)
                + ") instead of "@ + text::dec(UNSET_OFFSET as int)
                + "; a consumer seeking forward in time reads that as being caught up"@,
        )
    } else {
        VerdictView::Fail(
            "a timestamp after every record answered offset "@ + text::dec(after as int)
                + " instead of "@ + text::dec(UNSET_OFFSET as int),
        )
    }
}

pub open spec fn spec_list_offsets_by_timestamp(
    ctx: ServerCtx,
    tape: Seq<Event>,
) -> FlowView<VerdictView> {
    match ctx.spec_version(
        0,
        "ListOffsets"@,
        LIST_OFFSETS,
        1,
        ctx.schema.list_offsets.max,
    ) {
        Err(halt) => Err(halt),
        Ok(version) => match flows::spec_produce_flow(
            ctx,
            tape,
            0,
            "bytime"@,
            Addressing::Name,
        ) {
            Err(halt) => Err(halt),
            Ok((produced, at)) => match tape::spec_doing(
                log_flows::spec_list_offset_of(
                    tape,
                    at,
                    produced.conn,
                    version,
                    produced.topic,
                    PROBE_FIRST_TIMESTAMP,
                    780,
                ),
                "ListOffsets (first timestamp)"@,
            ) {
                Err(halt) => Err(halt),
                Ok((first, at)) => if !(spec_judge_first_time(first) is Pass) {
                    Err(HaltView::Stop(spec_judge_first_time(first), at))
                } else {
                    match tape::spec_doing(
                        log_flows::spec_list_offset_of(
                            tape,
                            at,
                            produced.conn,
                            version,
                            produced.topic,
                            AFTER_EVERY_RECORD,
                            790,
                        ),
                        "ListOffsets (future timestamp)"@,
                    ) {
                        Err(halt) => Err(halt),
                        Ok((after, at)) => tape::spec_rule(spec_judge_future(after), at),
                    }
                },
            },
        },
    }
}

/// Lands a seek by time on the first record at or after it, and answers no
/// offset for a time after the last one: the log end would read as being
/// caught up.
pub fn list_offsets_by_timestamp(ctx: &ServerCtx, tape: &Vec<Event>) -> (r: Flow<Verdict>)
    ensures
        tape::ran(r) == spec_list_offsets_by_timestamp(*ctx, tape@),
{
    let version: i16 = ctx.version(0, "ListOffsets", LIST_OFFSETS, 1, ctx.schema.list_offsets.max)?;
    let (produced, at) = flows::produce_flow(ctx, tape, 0, "bytime", Addressing::Name)?;
    let (first, at) = doing(
        log_flows::list_offset_of(
            tape,
            at,
            produced.conn,
            version,
            produced.topic.as_str(),
            PROBE_FIRST_TIMESTAMP,
            780,
        ),
        "ListOffsets (first timestamp)",
    )?;
    if first != 0 {
        return Err(
            fail(
                line("the batch's first timestamp (").num(PROBE_FIRST_TIMESTAMP)
                    .lit(") answered offset ").num(first).lit(", not 0").done(),
                at,
            ),
        );
    }
    let (after, at) = doing(
        log_flows::list_offset_of(
            tape,
            at,
            produced.conn,
            version,
            produced.topic.as_str(),
            AFTER_EVERY_RECORD,
            790,
        ),
        "ListOffsets (future timestamp)",
    )?;
    if after == UNSET_OFFSET {
        return Ok((Verdict::Pass, at));
    }
    if after == PROBE_RECORDS {
        return Err(
            fail(
                line("a timestamp after every record answered the log end (").num(after)
                    .lit(") instead of ").num(UNSET_OFFSET)
                    .lit("; a consumer seeking forward in time reads that as being caught up")
                    .done(),
                at,
            ),
        );
    }
    Err(
        fail(
            line("a timestamp after every record answered offset ").num(after).lit(" instead of ")
                .num(UNSET_OFFSET).done(),
            at,
        ),
    )
}

/// How long the long poll is asked to wait.
pub const LONG_POLL_MS: i32 = 500;
/// Half of that, in nanoseconds: a broker that rounds or wakes early still
/// waits this long, and one that does not wait at all does not.
pub const LONG_POLL_FLOOR: u64 = 250_000_000;

/// How long a fetch took that nothing satisfied.
pub open spec fn spec_judge_idle(idle: u64) -> VerdictView {
    if idle < LONG_POLL_FLOOR {
        VerdictView::Fail(
            "a fetch at the log end asking for 1 byte with max_wait_ms="@ + text::dec(
                LONG_POLL_MS as int,
            ) + " came back in "@ + text::duration_text(idle)
                + "; a caught-up consumer polling this broker spins instead of waiting"@,
        )
    } else {
        VerdictView::Pass
    }
}

/// How long a fetch took that something satisfied.
pub open spec fn spec_judge_ready(ready: u64) -> VerdictView {
    if ready >= LONG_POLL_FLOOR {
        VerdictView::Fail(
            "a fetch that could be answered from existing records still took "@
                + text::duration_text(ready) + " with max_wait_ms="@ + text::dec(
                LONG_POLL_MS as int,
            ) + "; the wait is for data that is not there yet, not for data that is"@,
        )
    } else {
        VerdictView::Pass
    }
}

pub open spec fn spec_fetch_long_poll_contract(
    ctx: ServerCtx,
    tape: Seq<Event>,
) -> FlowView<VerdictView> {
    match ctx.spec_version(
        0,
        "Fetch"@,
        FETCH,
        ctx.schema.fetch.min,
        FETCH_NAME_MAX,
    ) {
        Err(halt) => Err(halt),
        Ok(version) => match flows::spec_produce_flow(
            ctx,
            tape,
            0,
            "longpoll"@,
            Addressing::Name,
        ) {
            Err(halt) => Err(halt),
            Ok((produced, at)) => match tape::spec_doing(
                log_flows::spec_fetch_with_wait(
                    tape,
                    at,
                    produced.conn,
                    version,
                    produced.topic,
                    PROBE_RECORDS,
                    1,
                    LONG_POLL_MS,
                    890,
                ),
                "Fetch (empty, long poll)"@,
            ) {
                Err(halt) => Err(halt),
                Ok((idle, at)) => if !(spec_judge_idle(idle) is Pass) {
                    Err(HaltView::Stop(spec_judge_idle(idle), at))
                } else {
                    match tape::spec_doing(
                        log_flows::spec_fetch_with_wait(
                            tape,
                            at,
                            produced.conn,
                            version,
                            produced.topic,
                            0,
                            1,
                            LONG_POLL_MS,
                            900,
                        ),
                        "Fetch (satisfiable, long poll)"@,
                    ) {
                        Err(halt) => Err(halt),
                        Ok((ready, at)) => tape::spec_rule(spec_judge_ready(ready), at),
                    }
                },
            },
        },
    }
}

/// Holds a fetch that nothing satisfies, and answers one that something does
/// at once.
pub fn fetch_long_poll_contract(ctx: &ServerCtx, tape: &Vec<Event>) -> (r: Flow<Verdict>)
    ensures
        tape::ran(r) == spec_fetch_long_poll_contract(*ctx, tape@),
{
    let version: i16 = ctx.version(0, "Fetch", FETCH, ctx.schema.fetch.min, FETCH_NAME_MAX)?;
    let (produced, at) = flows::produce_flow(ctx, tape, 0, "longpoll", Addressing::Name)?;
    let (idle, at) = doing(
        log_flows::fetch_with_wait(
            tape,
            at,
            produced.conn,
            version,
            produced.topic.as_str(),
            PROBE_RECORDS,
            1,
            LONG_POLL_MS,
            890,
        ),
        "Fetch (empty, long poll)",
    )?;
    if idle < LONG_POLL_FLOOR {
        return Err(
            fail(
                line("a fetch at the log end asking for 1 byte with max_wait_ms=")
                    .num(LONG_POLL_MS as i64).lit(" came back in ").wait(idle)
                    .lit("; a caught-up consumer polling this broker spins instead of waiting")
                    .done(),
                at,
            ),
        );
    }
    let (ready, at) = doing(
        log_flows::fetch_with_wait(
            tape,
            at,
            produced.conn,
            version,
            produced.topic.as_str(),
            0,
            1,
            LONG_POLL_MS,
            900,
        ),
        "Fetch (satisfiable, long poll)",
    )?;
    if ready >= LONG_POLL_FLOOR {
        return Err(
            fail(
                line("a fetch that could be answered from existing records still took ")
                    .wait(ready).lit(" with max_wait_ms=").num(LONG_POLL_MS as i64)
                    .lit("; the wait is for data that is not there yet, not for data that is")
                    .done(),
                at,
            ),
        );
    }
    Ok((Verdict::Pass, at))
}

/// The correlation id of the produce that must not be answered.
pub const SILENT_CORRELATION: i32 = 1_300;
/// The correlation id of the request straight after it, which must be.
pub const FOLLOW_UP_CORRELATION: i32 = 1_301;

/// What the first frame after an `acks=0` produce says.
pub open spec fn spec_judge_silence(answer: Seq<u8>) -> VerdictView {
    if answer.len() < 4 {
        VerdictView::Fail(
            "the answer after an acks=0 produce is "@ + text::dec(answer.len() as int)
                + " byte(s)"@,
        )
    } else if be_i32(answer) == FOLLOW_UP_CORRELATION {
        VerdictView::Pass
    } else if be_i32(answer) == SILENT_CORRELATION {
        VerdictView::Fail(
            "answered an acks=0 produce (correlation "@ + text::dec(SILENT_CORRELATION as int)
                + "); the client has no id outstanding for it, so it reads that frame as the answer to its next request and every reply after is matched to the wrong one"@,
        )
    } else {
        VerdictView::Fail(
            "after an acks=0 produce and an ApiVersions (correlation "@ + text::dec(
                FOLLOW_UP_CORRELATION as int,
            ) + "), the next frame carried correlation "@ + text::dec(be_i32(answer)),
        )
    }
}

pub fn judge_silence(answer: &Vec<u8>) -> (r: Verdict)
    ensures
        r@ == spec_judge_silence(answer@),
{
    if answer.len() < 4 {
        return Verdict::Fail {
            details: line("the answer after an acks=0 produce is ").count(
                answer.len() as u128,
            ).lit(" byte(s)").done(),
        };
    }
    let carried: i32 = read_be_i32(answer);
    if carried == FOLLOW_UP_CORRELATION {
        Verdict::Pass
    } else if carried == SILENT_CORRELATION {
        Verdict::Fail {
            details: line("answered an acks=0 produce (correlation ").num(
                SILENT_CORRELATION as i64,
            ).lit(
                "); the client has no id outstanding for it, so it reads that frame as the answer to its next request and every reply after is matched to the wrong one",
            ).done(),
        }
    } else {
        Verdict::Fail {
            details: line("after an acks=0 produce and an ApiVersions (correlation ").num(
                FOLLOW_UP_CORRELATION as i64,
            ).lit("), the next frame carried correlation ").num(carried as i64).done(),
        }
    }
}

pub open spec fn spec_produce_acks_zero_is_silent(
    ctx: ServerCtx,
    tape: Seq<Event>,
) -> FlowView<VerdictView> {
    match ctx.spec_version(
        0,
        "Produce"@,
        PRODUCE,
        ctx.schema.produce.min,
        PRODUCE_NAME_MAX,
    ) {
        Err(halt) => Err(halt),
        Ok(version) => match flows::spec_produce_flow(
            ctx,
            tape,
            0,
            "acks0"@,
            Addressing::Name,
        ) {
            Err(halt) => Err(halt),
            Ok((produced, at)) => match tape::spec_send(
                tape,
                at,
                Label::Final("Produce"@),
                "sending the acks=0 produce"@,
                ActionOf::Send {
                    conn: produced.conn,
                    version,
                    correlation: SILENT_CORRELATION,
                    request: RequestOf::Produce {
                        topic: TopicOf::Name(produced.topic),
                        partition: 0,
                        acks: 0,
                        transactional_id: None,
                        records: produced.sent,
                    },
                },
            ) {
                Err(halt) => Err(halt),
                Ok((_, at)) => match tape::spec_send(
                    tape,
                    at,
                    Label::Plain,
                    "sending the follow-up ApiVersions"@,
                    ActionOf::Send {
                        conn: produced.conn,
                        version: 0,
                        correlation: FOLLOW_UP_CORRELATION,
                        request: RequestOf::ApiVersions,
                    },
                ) {
                    Err(halt) => Err(halt),
                    Ok((_, at)) => match tape::spec_read_frame(
                        tape,
                        at,
                        "reading the follow-up answer"@,
                        produced.conn,
                    ) {
                        Err(halt) => Err(halt),
                        Ok((answer, at)) => Ok((spec_judge_silence(answer@), at)),
                    },
                },
            },
        },
    }
}

/// Answers an `acks=0` produce with nothing at all: the next frame on the
/// wire is the answer to the next request.
pub fn produce_acks_zero_is_silent(ctx: &ServerCtx, tape: &Vec<Event>) -> (r: Flow<Verdict>)
    ensures
        tape::ran(r) == spec_produce_acks_zero_is_silent(*ctx, tape@),
{
    let version: i16 = ctx.version(0, "Produce", PRODUCE, ctx.schema.produce.min, PRODUCE_NAME_MAX)?;
    let (produced, at) = flows::produce_flow(ctx, tape, 0, "acks0", Addressing::Name)?;
    let (_, at) = tape::send(
        tape,
        at,
        Label::Final("Produce"),
        "sending the acks=0 produce",
        ActionOf::Send {
            conn: produced.conn,
            version,
            correlation: SILENT_CORRELATION,
            request: RequestOf::Produce {
                topic: TopicOf::Name(produced.topic.clone()),
                partition: 0,
                acks: 0,
                transactional_id: None,
                records: copy_bytes(&produced.sent),
            },
        },
    )?;
    let (_, at) = tape::send(
        tape,
        at,
        Label::Plain,
        "sending the follow-up ApiVersions",
        ActionOf::Send {
            conn: produced.conn,
            version: 0,
            correlation: FOLLOW_UP_CORRELATION,
            request: RequestOf::ApiVersions,
        },
    )?;
    let (answer, at) = tape::read_frame(tape, at, "reading the follow-up answer", produced.conn)?;
    Ok((judge_silence(answer), at))
}

/// The fewest bytes of a batch that are compared.
pub const BATCH_HEAD: usize = 20;

/// Whether a broker may rewrite the `i`th byte of a batch: it is part of the
/// base offset or of the leader epoch, which the checksum does not cover.
pub open spec fn is_rewritable(i: int) -> bool {
    i < 8 || 12 <= i < 16
}

/// Whether a batch came back as it was sent.
pub open spec fn is_as_sent(sent: Seq<u8>, got: Seq<u8>) -> bool {
    &&& got.len() == sent.len()
    &&& forall|i: int| 0 <= i < sent.len() && !is_rewritable(i) ==> #[trigger] got[i] == sent[i]
}

/// A gzipped batch as it was sent against what came back.
pub open spec fn spec_judge_passthrough(sent: Seq<u8>, got: Seq<u8>) -> VerdictView {
    if got.len() < BATCH_HEAD || sent.len() < BATCH_HEAD {
        VerdictView::Fail(
            "produced "@ + text::dec(sent.len() as int) + " byte(s) of gzip batch and got "@
                + text::dec(got.len() as int) + " back"@,
        )
    } else if is_as_sent(sent, got) {
        VerdictView::Pass
    } else if got.skip(BATCH_HEAD as int) != sent.skip(BATCH_HEAD as int) {
        VerdictView::Fail(
            "a gzip batch came back rewritten: "@ + text::dec(sent.len() as int)
                + " byte(s) produced, "@ + text::dec(got.len() as int)
                + " returned, and the crc-covered bytes differ — the records still decode, they are simply not the ones anybody wrote"@,
        )
    } else {
        VerdictView::Fail(
            "a gzip batch came back rewritten: "@ + text::dec(sent.len() as int)
                + " byte(s) produced, "@ + text::dec(got.len() as int)
                + " returned, and its header differs in more than the base offset and the leader epoch"@,
        )
    }
}

fn same_tail(a: &Vec<u8>, b: &Vec<u8>, from: usize) -> (r: bool)
    requires
        from <= a@.len(),
        from <= b@.len(),
    ensures
        r == (a@.skip(from as int) == b@.skip(from as int)),
{
    if a.len() != b.len() {
        assert(a@.skip(from as int).len() != b@.skip(from as int).len());
        return false;
    }
    let mut i: usize = from;
    while i < a.len()
        invariant
            from <= i <= a@.len(),
            a@.len() == b@.len(),
            forall|j: int| from <= j < i ==> a@[j] == b@[j],
        decreases a@.len() - i,
    {
        if a[i] != b[i] {
            assert(a@.skip(from as int)[i - from] != b@.skip(from as int)[i - from]);
            return false;
        }
        i = i + 1;
    }
    assert(a@.skip(from as int) =~= b@.skip(from as int));
    true
}

/// Whether the heads of two batches differ only where a broker may rewrite
/// them.
fn same_head(sent: &Vec<u8>, got: &Vec<u8>) -> (r: bool)
    requires
        BATCH_HEAD <= sent@.len(),
        BATCH_HEAD <= got@.len(),
    ensures
        r == (forall|i: int|
            0 <= i < BATCH_HEAD && !is_rewritable(i) ==> #[trigger] got@[i] == sent@[i]),
{
    let mut i: usize = 0;
    while i < BATCH_HEAD
        invariant
            i <= BATCH_HEAD,
            BATCH_HEAD <= sent@.len(),
            BATCH_HEAD <= got@.len(),
            forall|j: int| 0 <= j < i && !is_rewritable(j) ==> #[trigger] got@[j] == sent@[j],
        decreases BATCH_HEAD - i,
    {
        if !(i < 8 || (12 <= i && i < 16)) && got[i] != sent[i] {
            assert(!is_rewritable(i as int) && got@[i as int] != sent@[i as int]);
            return false;
        }
        i = i + 1;
    }
    true
}

pub fn judge_passthrough(sent: &Vec<u8>, got: &Vec<u8>) -> (r: Verdict)
    ensures
        r@ == spec_judge_passthrough(sent@, got@),
{
    if got.len() < BATCH_HEAD || sent.len() < BATCH_HEAD {
        return Verdict::Fail {
            details: line("produced ").count(sent.len() as u128).lit(
                " byte(s) of gzip batch and got ",
            ).count(got.len() as u128).lit(" back").done(),
        };
    }
    let ghost (sent_tail, got_tail) = (sent@.skip(BATCH_HEAD as int), got@.skip(BATCH_HEAD as int));
    if !same_tail(got, sent, BATCH_HEAD) {
        proof {
            if is_as_sent(sent@, got@) {
                assert forall|j: int| 0 <= j < got_tail.len() implies got_tail[j]
                    == sent_tail[j] by {
                    assert(got@[j + BATCH_HEAD] == sent@[j + BATCH_HEAD]);
                }
                assert(got_tail =~= sent_tail);
            }
        }
        return Verdict::Fail {
            details: line("a gzip batch came back rewritten: ").count(sent.len() as u128).lit(
                " byte(s) produced, ",
            ).count(got.len() as u128).lit(
                " returned, and the crc-covered bytes differ — the records still decode, they are simply not the ones anybody wrote",
            ).done(),
        };
    }
    assert(got_tail.len() == sent_tail.len());
    if !same_head(sent, got) {
        return Verdict::Fail {
            details: line("a gzip batch came back rewritten: ").count(sent.len() as u128).lit(
                " byte(s) produced, ",
            ).count(got.len() as u128).lit(
                " returned, and its header differs in more than the base offset and the leader epoch",
            ).done(),
        };
    }
    assert forall|i: int| 0 <= i < sent@.len() && !is_rewritable(i) implies #[trigger] got@[i]
        == sent@[i] by {
        if i >= BATCH_HEAD {
            assert(got_tail[i - BATCH_HEAD] == sent_tail[i - BATCH_HEAD]);
        }
    }
    Verdict::Pass
}

/// What is made of gzipping the encoded records.
pub open spec fn spec_payload(outcome: Result<Seq<u8>, Seq<char>>, at: int) -> FlowView<Seq<u8>> {
    match outcome {
        Ok(payload) => Ok((payload, at)),
        Err(details) => Err(tape::spec_error(details, at)),
    }
}

/// A failed compression is an error of the run.
pub fn payload(outcome: Result<Vec<u8>, String>, at: usize) -> (r: Flow<Vec<u8>>)
    ensures
        tape::ran(r) == spec_payload(batch::squeezed(outcome), at as int),
{
    match outcome {
        Ok(payload) => Ok((payload, at)),
        Err(details) => Err(error(details, at)),
    }
}

/// The encoded gzip batch.
pub open spec fn spec_gzip_sent(tape: Seq<Event>, at: int) -> FlowView<Vec<u8>> {
    match tape::spec_encode(
        tape,
        at,
        Label::Final("a record"@),
        ActionOf::EncodeRecords,
    ) {
        Err(halt) => Err(halt),
        Ok((plain, at)) => match spec_payload(batch::spec_told(batch::gzipped(plain@)), at) {
            Err(halt) => Err(halt),
            Ok((squeezed, at)) => tape::spec_encode(
                tape,
                at,
                Label::Final("the compressed batch"@),
                ActionOf::EncodeGzip { payload: squeezed },
            ),
        },
    }
}

/// Has the probe batch encoded with its records gzipped.
fn gzip_sent<'a>(tape: &'a Vec<Event>, at: usize) -> (r: Flow<&'a Vec<u8>>)
    ensures
        tape::read(r) == spec_gzip_sent(tape@, at as int),
{
    let (plain, at) = tape::encode(tape, at, Label::Final("a record"), ActionOf::EncodeRecords)?;
    let (squeezed, at) = payload(batch::gzip_records(plain), at)?;
    tape::encode(
        tape,
        at,
        Label::Final("the compressed batch"),
        ActionOf::EncodeGzip { payload: squeezed },
    )
}

/// Writing the gzipped batch to `target`, from the given attempt on. A
/// retriable code says that this broker is the wrong one to ask, so the
/// leader is looked up again. An answer that names no partition is taken
/// for an acknowledgement.
pub open spec fn spec_gzip_leg(
    ctx: ServerCtx,
    tape: Seq<Event>,
    at: int,
    bootstrap: usize,
    target: usize,
    produce_version: i16,
    metadata_version: i16,
    topic: Seq<char>,
    sent: Seq<u8>,
    attempt: int,
    last: Seq<char>,
) -> FlowView<usize>
    decreases ctx.config.spec_settle_attempts() - attempt,
{
    if attempt >= ctx.config.spec_settle_attempts() {
        Err(tape::spec_fail("a gzip batch never became producible: still "@ + last, at))
    } else {
        match tape::spec_pause_between(tape, at, attempt) {
            Err(halt) => Err(halt),
            Ok((_, at)) => match tape::spec_doing(
                asks::spec_ask_produce(
                    tape,
                    at,
                    Label::Final("Produce"@),
                    ActionOf::Call {
                        conn: target,
                        version: produce_version,
                        correlation: ctx::spec_correlation(960, attempt),
                        request: RequestOf::Produce {
                            topic: TopicOf::Name(topic),
                            partition: 0,
                            acks: ALL_REPLICAS,
                            transactional_id: None,
                            records: sent,
                        },
                    },
                ),
                "Produce"@,
            ) {
                Err(halt) => Err(halt),
                Ok((rows, at)) => match find::first_of_first(rows@) {
                    None => Ok((target, at)),
                    Some(row) => if row.error.ok() {
                        Ok((target, at))
                    } else if row.error.code == wire::UNSUPPORTED_COMPRESSION_TYPE {
                        Err(
                            tape::spec_skip(
                                "the subject does not accept gzip-compressed batches"@,
                                at,
                            ),
                        )
                    } else if !flows::retriable_code(row.error.code) {
                        Err(
                            tape::spec_fail(
                                "producing a gzip batch answered "@ + row.error.shown@,
                                at,
                            ),
                        )
                    } else {
                        match tape::spec_doing(
                            flows::spec_connect_to_leader(
                                ctx,
                                tape,
                                at,
                                bootstrap,
                                metadata_version,
                                topic,
                                952,
                                0,
                            ),
                            "relocating the partition leader"@,
                        ) {
                            Err(halt) => Err(halt),
                            Ok(((conn, _), at)) => spec_gzip_leg(
                                ctx,
                                tape,
                                at,
                                bootstrap,
                                conn,
                                produce_version,
                                metadata_version,
                                topic,
                                sent,
                                attempt + 1,
                                row.error.shown@,
                            ),
                        }
                    },
                },
            },
        }
    }
}

/// Writes the gzipped batch and gives the connection that took it.
fn gzip_leg(
    ctx: &ServerCtx,
    tape: &Vec<Event>,
    at: usize,
    bootstrap: usize,
    conn: usize,
    produce_version: i16,
    metadata_version: i16,
    topic: &String,
    sent: &Vec<u8>,
) -> (r: Flow<usize>)
    ensures
        tape::ran(r) == spec_gzip_leg(
            *ctx,
            tape@,
            at as int,
            bootstrap,
            conn,
            produce_version,
            metadata_version,
            topic@,
            sent@,
            0,
            ""@,
        ),
{
    let attempts: u32 = ctx.config.settle_attempts();
    let mut here: usize = at;
    let mut target: usize = conn;
    let mut last: String = String::from_str("");
    let mut attempt: u32 = 0;
    while attempt < attempts
        invariant
            attempt <= attempts,
            attempts == ctx.config.spec_settle_attempts(),
            spec_gzip_leg(
                *ctx,
                tape@,
                at as int,
                bootstrap,
                conn,
                produce_version,
                metadata_version,
                topic@,
                sent@,
                0,
                ""@,
            ) == spec_gzip_leg(
                *ctx,
                tape@,
                here as int,
                bootstrap,
                target,
                produce_version,
                metadata_version,
                topic@,
                sent@,
                attempt as int,
                last@,
            ),
        decreases attempts - attempt,
    {
        let (_, next) = tape::pause_between(tape, here, attempt)?;
        let (rows, next) = doing_ref(
            asks::ask_produce(
                tape,
                next,
                Label::Final("Produce"),
                ActionOf::Call {
                    conn: target,
                    version: produce_version,
                    correlation: ctx::correlation(960, attempt),
                    request: RequestOf::Produce {
                        topic: TopicOf::Name(topic.clone()),
                        partition: 0,
                        acks: ALL_REPLICAS,
                        transactional_id: None,
                        records: copy_bytes(sent),
                    },
                },
            ),
            "Produce",
        )?;
        let row = match find::first_row(rows) {
            None => return Ok((target, next)),
            Some(row) => row,
        };
        if row.error.is_ok() {
            return Ok((target, next));
        }
        if row.error.code == wire::UNSUPPORTED_COMPRESSION_TYPE {
            return Err(
                skip(
                    String::from_str("the subject does not accept gzip-compressed batches"),
                    next,
                ),
            );
        }
        if !flows::retriable(row.error.code) {
            return Err(
                fail(
                    line("producing a gzip batch answered ").lit(row.error.shown.as_str()).done(),
                    next,
                ),
            );
        }
        let ((leader, _), next) = doing(
            flows::connect_to_leader(
                ctx,
                tape,
                next,
                bootstrap,
                metadata_version,
                topic.as_str(),
                952,
            ),
            "relocating the partition leader",
        )?;
        target = leader;
        last = row.error.shown.clone();
        here = next;
        attempt = attempt + 1;
    }
    Err(fail(line("a gzip batch never became producible: still ").lit(last.as_str()).done(), here))
}

pub open spec fn spec_produce_compressed_passthrough(
    ctx: ServerCtx,
    tape: Seq<Event>,
) -> FlowView<VerdictView> {
    match ctx.spec_version(
        0,
        "CreateTopics"@,
        CREATE_TOPICS,
        ctx.schema.create_topics.min,
        ctx.schema.create_topics.max,
    ) {
        Err(halt) => Err(halt),
        Ok(create_version) => match ctx.spec_version(
            0,
            "Produce"@,
            PRODUCE,
            ctx.schema.produce.min,
            PRODUCE_NAME_MAX,
        ) {
            Err(halt) => Err(halt),
            Ok(produce_version) => match ctx.spec_version(
                0,
                "Fetch"@,
                FETCH,
                ctx.schema.fetch.min,
                FETCH_NAME_MAX,
            ) {
                Err(halt) => Err(halt),
                Ok(fetch_version) => match ctx.spec_version(
                    0,
                    "Metadata"@,
                    METADATA,
                    1,
                    ctx.schema.metadata.max,
                ) {
                    Err(halt) => Err(halt),
                    Ok(metadata_version) => match tape::spec_connect(tape, 0, ctx.addr@) {
                        Err(halt) => Err(halt),
                        Ok((bootstrap, at)) => match ctx::spec_fresh_topic(ctx, tape, at, "gzip"@) {
                            Err(halt) => Err(halt),
                            Ok((topic, at)) => match tape::spec_doing(
                                flows::spec_create_topic(
                                    ctx,
                                    tape,
                                    at,
                                    bootstrap,
                                    create_version,
                                    topic,
                                    false,
                                    950,
                                ),
                                "CreateTopics"@,
                            ) {
                                Err(halt) => Err(halt),
                                Ok((created, at)) => if !created.error.ok() {
                                    Err(
                                        tape::spec_fail(
                                            "creating "@ + topic + " answered "@
                                                + created.error.shown@,
                                            at,
                                        ),
                                    )
                                } else {
                                    match tape::spec_doing(
                                        flows::spec_connect_to_leader(
                                            ctx,
                                            tape,
                                            at,
                                            bootstrap,
                                            metadata_version,
                                            topic,
                                            951,
                                            0,
                                        ),
                                        "locating the partition leader"@,
                                    ) {
                                        Err(halt) => Err(halt),
                                        Ok(((conn, _), at)) => match spec_gzip_sent(tape, at) {
                                            Err(halt) => Err(halt),
                                            Ok((sent, at)) => match spec_gzip_leg(
                                                ctx,
                                                tape,
                                                at,
                                                bootstrap,
                                                conn,
                                                produce_version,
                                                metadata_version,
                                                topic,
                                                sent@,
                                                0,
                                                ""@,
                                            ) {
                                                Err(halt) => Err(halt),
                                                Ok((taker, at)) => match tape::spec_doing(
                                                    log_flows::spec_fetch_settled(
                                                        ctx,
                                                        tape,
                                                        at,
                                                        taker,
                                                        fetch_version,
                                                        topic,
                                                        0,
                                                        READ_UNCOMMITTED,
                                                        970,
                                                        0,
                                                        ErrorView::Infra(
                                                            "no fetch attempts were made"@,
                                                        ),
                                                    ),
                                                    "Fetch"@,
                                                ) {
                                                    Err(halt) => Err(halt),
                                                    Ok((row, at)) => {
                                                        let got = log_flows::spec_records(row);
                                                        Ok((spec_judge_passthrough(sent@, got), at))
                                                    },
                                                },
                                            },
                                        },
                                    }
                                },
                            },
                        },
                    },
                },
            },
        },
    }
}

/// Returns a compressed batch exactly as it was sent: recompressing, even to
/// the same codec, rewrites bytes that consumers verify.
pub fn produce_compressed_passthrough(ctx: &ServerCtx, tape: &Vec<Event>) -> (r: Flow<Verdict>)
    ensures
        tape::ran(r) == spec_produce_compressed_passthrough(*ctx, tape@),
{
    let create_version: i16 = ctx.version(
        0,
        "CreateTopics",
        CREATE_TOPICS,
        ctx.schema.create_topics.min,
        ctx.schema.create_topics.max,
    )?;
    let produce_version: i16 = ctx.version(0, "Produce", PRODUCE, ctx.schema.produce.min, PRODUCE_NAME_MAX)?;
    let fetch_version: i16 = ctx.version(0, "Fetch", FETCH, ctx.schema.fetch.min, FETCH_NAME_MAX)?;
    let metadata_version: i16 = ctx.version(0, "Metadata", METADATA, 1, ctx.schema.metadata.max)?;
    let (bootstrap, at) = tape::connect(tape, 0, ctx.addr.as_str())?;
    let (topic, at) = ctx::fresh_topic(ctx, tape, at, "gzip")?;
    let (created, at) = doing_ref(
        flows::create_topic_call(
            ctx,
            tape,
            at,
            bootstrap,
            create_version,
            topic.as_str(),
            false,
            950,
        ),
        "CreateTopics",
    )?;
    if !created.error.is_ok() {
        return Err(
            fail(
                line("creating ").lit(topic.as_str()).lit(" answered ")
                    .lit(created.error.shown.as_str()).done(),
                at,
            ),
        );
    }
    let ((conn, _), at) = doing(
        flows::connect_to_leader(ctx, tape, at, bootstrap, metadata_version, topic.as_str(), 951),
        "locating the partition leader",
    )?;
    let (sent, at) = gzip_sent(tape, at)?;
    let (taker, at) = gzip_leg(ctx, tape, at, bootstrap, conn, produce_version, metadata_version, &topic, sent)?;
    let (row, at) = doing_ref(
        log_flows::fetch_partition_settled(
            ctx,
            tape,
            at,
            taker,
            fetch_version,
            topic.as_str(),
            0,
            READ_UNCOMMITTED,
            970,
        ),
        "Fetch",
    )?;
    let got = log_flows::records_of(row);
    Ok((judge_passthrough(sent, &got), at))
}

} // verus!

//! The steps that read logs: offsets lookups and fetches.

use vstd::prelude::*;
use vstd::string::*;

use crate::checks::asks;
use crate::checks::ctx;
use crate::checks::ctx::{correlation, CodeNames, ServerCtx};
use crate::checks::find;
use crate::checks::find::{fetched_row, first, offsets_of};
use crate::checks::flows;
use crate::checks::flows::{address, Addressing};
use crate::checks::tape;
use crate::checks::tape::{
    copy_bytes, doing_ref, infra, pause, pause_between, violation, ActionOf, CheckError,
    ErrorView, Event, Flow, FlowView, Halt, HaltView, Label,
};
use crate::text;
use crate::text::{contains_text, line, same_bytes};
use crate::wire;
use crate::wire::{
    FetchAnswer, FetchedRow, OffsetTopic, RequestOf, TopicId, TopicOf, EARLIEST_TIMESTAMP,
    LATEST_TIMESTAMP, LIST_OFFSETS, READ_COMMITTED,
};

verus! {

pub open spec fn spec_list_offsets(
    tape: Seq<Event>,
    at: int,
    conn: usize,
    version: i16,
    topic: Seq<char>,
    timestamp: i64,
    correlation: i32,
) -> FlowView<Vec<OffsetTopic>> {
    asks::spec_ask_list_offsets(
        tape,
        at,
        Label::Named("ListOffsets"@),
        ActionOf::Call {
            conn,
            version,
            correlation,
            request: RequestOf::ListOffsets { topic, timestamp },
        },
    )
}

fn list_offsets<'a>(
    tape: &'a Vec<Event>,
    at: usize,
    conn: usize,
    version: i16,
    topic: &str,
    timestamp: i64,
    correlation: i32,
) -> (r: Flow<&'a Vec<OffsetTopic>>)
    ensures
        tape::read(r) == spec_list_offsets(
            tape@,
            at as int,
            conn,
            version,
            topic@,
            timestamp,
            correlation,
        ),
{
    asks::ask_list_offsets(
        tape,
        at,
        Label::Named("ListOffsets"),
        ActionOf::Call {
            conn,
            version,
            correlation,
            request: RequestOf::ListOffsets { topic: String::from_str(topic), timestamp },
        },
    )
}

/// One partition's offset at `timestamp`, looked up by the topic's name.
pub open spec fn spec_list_offsets_at(
    tape: Seq<Event>,
    at: int,
    conn: usize,
    version: i16,
    topic: Seq<char>,
    timestamp: i64,
    correlation: i32,
) -> FlowView<i64> {
    match spec_list_offsets(tape, at, conn, version, topic, timestamp, correlation) {
        Err(halt) => Err(halt),
        Ok((topics, at)) => match (match find::first_where(topics@, find::offsets_named(topic)) {
            Some(t) => find::head(t.partitions@),
            None => None,
        }) {
            None => Err(tape::spec_violation("ListOffsets response omits "@ + topic + "[0]"@, at)),
            Some(row) => if row.error.ok() {
                Ok((row.offset, at))
            } else {
                Err(
                    tape::spec_violation(
                        "ListOffsets for "@ + topic + "[0] at timestamp "@ + text::dec(
                            timestamp as int,
                        ) + " failed: "@ + row.error.shown@,
                        at,
                    ),
                )
            },
        },
    }
}

pub fn list_offsets_at(
    tape: &Vec<Event>,
    at: usize,
    conn: usize,
    version: i16,
    topic: &str,
    timestamp: i64,
    correlation: i32,
) -> (r: Flow<i64>)
    ensures
        tape::ran(r) == spec_list_offsets_at(
            tape@,
            at as int,
            conn,
            version,
            topic@,
            timestamp,
            correlation,
        ),
{
    let (topics, at) = list_offsets(tape, at, conn, version, topic, timestamp, correlation)?;
    let row = match offsets_of(topics, topic) {
        Some(t) => first(&t.partitions),
        None => None,
    };
    match row {
        None => Err(
            violation(line("ListOffsets response omits ").lit(topic).lit("[0]").done(), at),
        ),
        Some(row) => if row.error.is_ok() {
            Ok((row.offset, at))
        } else {
            Err(
                violation(
                    line("ListOffsets for ").lit(topic).lit("[0] at timestamp ").num(
                        timestamp,
                    ).lit(" failed: ").lit(row.error.shown.as_str()).done(),
                    at,
                ),
            )
        },
    }
}

/// One partition's offset at `timestamp`, taken from the first entry.
pub open spec fn spec_list_offset_of(
    tape: Seq<Event>,
    at: int,
    conn: usize,
    version: i16,
    topic: Seq<char>,
    timestamp: i64,
    correlation: i32,
) -> FlowView<i64> {
    match spec_list_offsets(tape, at, conn, version, topic, timestamp, correlation) {
        Err(halt) => Err(halt),
        Ok((topics, at)) => match (match find::head(topics@) {
            Some(t) => find::head(t.partitions@),
            None => None,
        }) {
            None => Err(tape::spec_violation("ListOffsets names no partitions"@, at)),
            Some(row) => if row.error.ok() {
                Ok((row.offset, at))
            } else {
                Err(tape::spec_violation("ListOffsets answered "@ + row.error.shown@, at))
            },
        },
    }
}

pub fn list_offset_of(
    tape: &Vec<Event>,
    at: usize,
    conn: usize,
    version: i16,
    topic: &str,
    timestamp: i64,
    correlation: i32,
) -> (r: Flow<i64>)
    ensures
        tape::ran(r) == spec_list_offset_of(
            tape@,
            at as int,
            conn,
            version,
            topic@,
            timestamp,
            correlation,
        ),
{
    let (topics, at) = list_offsets(tape, at, conn, version, topic, timestamp, correlation)?;
    let row = match first(topics) {
        Some(t) => first(&t.partitions),
        None => None,
    };
    match row {
        None => Err(violation(String::from_str("ListOffsets names no partitions"), at)),
        Some(row) => if row.error.is_ok() {
            Ok((row.offset, at))
        } else {
            Err(
                violation(
                    line("ListOffsets answered ").lit(row.error.shown.as_str()).done(),
                    at,
                ),
            )
        },
    }
}

/// The number of records in a partition, from the offsets at both ends.
pub open spec fn spec_log_span(
    ctx: ServerCtx,
    tape: Seq<Event>,
    at: int,
    conn: usize,
    topic: Seq<char>,
    correlation: i32,
) -> FlowView<i64> {
    match ctx.spec_range(LIST_OFFSETS) {
        Err(_) => Err(tape::spec_infra("ListOffsets is not advertised"@, at)),
        Ok(range) => match ctx::spec_negotiate(
            "ListOffsets"@,
            range,
            ctx.schema.list_offsets.min,
            ctx.schema.list_offsets.max,
        ) {
            Err(_) => Err(tape::spec_infra("no common ListOffsets version"@, at)),
            Ok(version) => match spec_list_offset_of(
                tape,
                at,
                conn,
                version,
                topic,
                EARLIEST_TIMESTAMP,
                correlation,
            ) {
                Err(halt) => Err(halt),
                Ok((earliest, at)) => match spec_list_offset_of(
                    tape,
                    at,
                    conn,
                    version,
                    topic,
                    LATEST_TIMESTAMP,
                    correlation.wrapping_add(1),
                ) {
                    Err(halt) => Err(halt),
                    Ok((latest, at)) => Ok((latest.wrapping_sub(earliest), at)),
                },
            },
        },
    }
}

pub fn log_span(
    ctx: &ServerCtx,
    tape: &Vec<Event>,
    at: usize,
    conn: usize,
    topic: &str,
    correlation: i32,
) -> (r: Flow<i64>)
    ensures
        tape::ran(r) == spec_log_span(*ctx, tape@, at as int, conn, topic@, correlation),
{
    let range = match ctx.range(LIST_OFFSETS) {
        Err(_) => return Err(infra(String::from_str("ListOffsets is not advertised"), at)),
        Ok(range) => range,
    };
    let version: i16 = match ctx::negotiate(
        "ListOffsets",
        range,
        ctx.schema.list_offsets.min,
        ctx.schema.list_offsets.max,
    ) {
        Err(_) => return Err(infra(String::from_str("no common ListOffsets version"), at)),
        Ok(version) => version,
    };
    let (earliest, at) = list_offset_of(
        tape,
        at,
        conn,
        version,
        topic,
        EARLIEST_TIMESTAMP,
        correlation,
    )?;
    let (latest, at) = list_offset_of(
        tape,
        at,
        conn,
        version,
        topic,
        LATEST_TIMESTAMP,
        correlation.wrapping_add(1),
    )?;
    Ok((latest.wrapping_sub(earliest), at))
}

/// The record set of the partition that a fetch asked for, or what is wrong
/// with the answer. Where the topic is addressed by id, it must echo that id.
pub open spec fn spec_read_fetch(answer: FetchAnswer, addressing: Addressing, topic_id: TopicId)
    -> Result<Seq<u8>, Seq<char>> {
    if !answer.error.ok() {
        Err("Fetch failed with top-level "@ + answer.error.shown@)
    } else {
        match find::head(answer.topics@) {
            None => Err("Fetch response names no topics"@),
            Some(t) => if addressing == Addressing::TopicId && t.topic_id@ != topic_id@ {
                Err(
                    "response echoes topic id "@ + text::hex_list(t.topic_id@) + ", requested "@
                        + text::hex_list(topic_id@),
                )
            } else {
                match find::head(t.partitions@) {
                    None => Err("Fetch response names no partitions"@),
                    Some(row) => if !row.error.ok() {
                        Err("Fetch failed with "@ + row.error.shown@)
                    } else {
                        Ok(spec_records(row))
                    },
                }
            },
        }
    }
}

/// One fetch of a topic's partition 0 from the start: the record set. Where
/// the topic is addressed by id, the answer must echo that id.
pub open spec fn spec_fetch_once(
    tape: Seq<Event>,
    at: int,
    conn: usize,
    version: i16,
    addressing: Addressing,
    topic: Seq<char>,
    topic_id: TopicId,
) -> FlowView<Seq<u8>> {
    match tape::spec_doing(
        asks::spec_ask_fetch(
            tape,
            at,
            Label::Plain,
            ActionOf::Call {
                conn,
                version,
                correlation: 12,
                request: RequestOf::Fetch {
                    topic: flows::spec_address(addressing, topic, topic_id),
                    partition: 0,
                    offset: 0,
                    max_wait_ms: 500,
                    min_bytes: 1,
                    max_bytes: 8_388_608,
                    isolation_level: 0,
                },
            },
        ),
        "Fetch"@,
    ) {
        Err(halt) => Err(halt),
        Ok((answer, at)) => match spec_read_fetch(answer, addressing, topic_id) {
            Ok(records) => Ok((records, at)),
            Err(details) => Err(tape::spec_violation(details, at)),
        },
    }
}

/// The record set of a fetched partition, nothing where there is none.
pub open spec fn spec_records(row: FetchedRow) -> Seq<u8> {
    match row.records {
        Some(bytes) => bytes@,
        None => Seq::empty(),
    }
}

pub fn records_of(row: &FetchedRow) -> (r: Vec<u8>)
    ensures
        r@ == spec_records(*row),
{
    match &row.records {
        Some(bytes) => copy_bytes(bytes),
        None => Vec::new(),
    }
}

pub fn fetch_once(
    tape: &Vec<Event>,
    at: usize,
    conn: usize,
    version: i16,
    addressing: Addressing,
    topic: &str,
    topic_id: TopicId,
) -> (r: Flow<Vec<u8>>)
    ensures
        tape::ran(r) == spec_fetch_once(
            tape@,
            at as int,
            conn,
            version,
            addressing,
            topic@,
            topic_id,
        ),
{
    let (answer, at) = doing_ref(
        asks::ask_fetch(
            tape,
            at,
            Label::Plain,
            ActionOf::Call {
                conn,
                version,
                correlation: 12,
                request: RequestOf::Fetch {
                    topic: address(addressing, topic, topic_id),
                    partition: 0,
                    offset: 0,
                    max_wait_ms: 500,
                    min_bytes: 1,
                    max_bytes: 8_388_608,
                    isolation_level: 0,
                },
            },
        ),
        "Fetch",
    )?;
    if !answer.error.is_ok() {
        return Err(
            violation(
                line("Fetch failed with top-level ").lit(answer.error.shown.as_str()).done(),
                at,
            ),
        );
    }
    let entry = match first(&answer.topics) {
        None => return Err(violation(String::from_str("Fetch response names no topics"), at)),
        Some(entry) => entry,
    };
    if addressing == Addressing::TopicId && !same_bytes(
        entry.topic_id.as_slice(),
        topic_id.as_slice(),
    ) {
        return Err(
            violation(
                line("response echoes topic id ").hexes(entry.topic_id.as_slice()).lit(
                    ", requested ",
                ).hexes(topic_id.as_slice()).done(),
                at,
            ),
        );
    }
    match first(&entry.partitions) {
        None => Err(violation(String::from_str("Fetch response names no partitions"), at)),
        Some(row) => if !row.error.is_ok() {
            Err(violation(line("Fetch failed with ").lit(row.error.shown.as_str()).done(), at))
        } else {
            Ok((records_of(row), at))
        },
    }
}

/// A fetch failure that a topic still settling explains.
pub open spec fn transient(details: Seq<char>) -> bool {
    text::has_text(details, "UNKNOWN_TOPIC_OR_PARTITION"@) || text::has_text(
        details,
        "NOT_LEADER_OR_FOLLOWER"@,
    ) || text::has_text(details, "LEADER_NOT_AVAILABLE"@) || text::has_text(
        details,
        "UNKNOWN_TOPIC_ID"@,
    )
}

pub fn is_transient(details: &str) -> (r: bool)
    ensures
        r == transient(details@),
{
    contains_text(details, "UNKNOWN_TOPIC_OR_PARTITION") || contains_text(
        details,
        "NOT_LEADER_OR_FOLLOWER",
    ) || contains_text(details, "LEADER_NOT_AVAILABLE") || contains_text(
        details,
        "UNKNOWN_TOPIC_ID",
    )
}

/// Fetching, from the given attempt on, until records come back.
pub open spec fn spec_run_fetch(
    ctx: ServerCtx,
    tape: Seq<Event>,
    at: int,
    conn: usize,
    version: i16,
    addressing: Addressing,
    topic: Seq<char>,
    topic_id: TopicId,
    attempt: int,
    last: Seq<char>,
) -> FlowView<Seq<u8>>
    decreases ctx.config.spec_settle_attempts() - attempt,
{
    if attempt >= ctx.config.spec_settle_attempts() {
        Err(tape::spec_violation(last, at))
    } else {
        match spec_fetch_once(tape, at, conn, version, addressing, topic, topic_id) {
            Ok((got, at)) => if got.len() > 0 {
                Ok((got, at))
            } else {
                match tape::spec_pause(tape, at) {
                    Err(halt) => Err(halt),
                    Ok((_, at)) => spec_run_fetch(
                        ctx,
                        tape,
                        at,
                        conn,
                        version,
                        addressing,
                        topic,
                        topic_id,
                        attempt + 1,
                        last,
                    ),
                }
            },
            Err(HaltView::Broke(ErrorView::Violation(details), at)) => if !transient(details) {
                Err(tape::spec_violation(details, at))
            } else {
                match tape::spec_pause(tape, at) {
                    Err(halt) => Err(halt),
                    Ok((_, at)) => spec_run_fetch(
                        ctx,
                        tape,
                        at,
                        conn,
                        version,
                        addressing,
                        topic,
                        topic_id,
                        attempt + 1,
                        details,
                    ),
                }
            },
            Err(halt) => Err(halt),
        }
    }
}

/// Fetches partition 0 of a topic from offset 0, retrying while the topic
/// settles, and returns the record set.
pub fn run_fetch(
    ctx: &ServerCtx,
    tape: &Vec<Event>,
    at: usize,
    conn: usize,
    version: i16,
    addressing: Addressing,
    topic: &str,
    topic_id: TopicId,
) -> (r: Flow<Vec<u8>>)
    ensures
        tape::ran(r) == spec_run_fetch(
            *ctx,
            tape@,
            at as int,
            conn,
            version,
            addressing,
            topic@,
            topic_id,
            0,
            "fetch returned no records"@,
        ),
{
    let attempts: u32 = ctx.config.settle_attempts();
    let mut last: String = String::from_str("fetch returned no records");
    let mut here: usize = at;
    let mut attempt: u32 = 0;
    while attempt < attempts
        invariant
            attempt <= attempts,
            attempts == ctx.config.spec_settle_attempts(),
            spec_run_fetch(
                *ctx,
                tape@,
                at as int,
                conn,
                version,
                addressing,
                topic@,
                topic_id,
                0,
                "fetch returned no records"@,
            ) == spec_run_fetch(
                *ctx,
                tape@,
                here as int,
                conn,
                version,
                addressing,
                topic@,
                topic_id,
                attempt as int,
                last@,
            ),
        decreases attempts - attempt,
    {
        match fetch_once(tape, here, conn, version, addressing, topic, topic_id) {
            Ok((got, next)) => {
                if got.len() > 0 {
                    return Ok((got, next));
                }
                let (_, next) = pause(tape, next)?;
                here = next;
            },
            Err(Halt::Broke(CheckError::Violation(details), next)) => {
                if !is_transient(details.as_str()) {
                    return Err(violation(details, next));
                }
                let (_, next) = pause(tape, next)?;
                last = details;
                here = next;
            },
            Err(halt) => return Err(halt),
        }
        attempt = attempt + 1;
    }
    Err(violation(last, here))
}

/// One fetch of one partition; an answer with an error code is an error.
pub open spec fn spec_fetch_partition(
    tape: Seq<Event>,
    at: int,
    conn: usize,
    version: i16,
    topic: Seq<char>,
    partition: i32,
    offset: i64,
    isolation_level: i8,
    correlation: i32,
) -> FlowView<FetchedRow> {
    match asks::spec_ask_fetch(
        tape,
        at,
        Label::Named("Fetch"@),
        ActionOf::Call {
            conn,
            version,
            correlation,
            request: RequestOf::Fetch {
                topic: TopicOf::Name(topic),
                partition,
                offset,
                max_wait_ms: 500,
                min_bytes: 0,
                max_bytes: 4_194_304,
                isolation_level,
            },
        },
    ) {
        Err(halt) => Err(halt),
        Ok((answer, at)) => match find::first_fetched(answer) {
            None => Err(tape::spec_violation("Fetch response names no partitions"@, at)),
            Some(row) => if row.error.ok() {
                Ok((row, at))
            } else {
                Err(
                    tape::spec_violation(
                        "Fetch for "@ + topic + "["@ + text::dec(partition as int)
                            + "] at offset "@ + text::dec(offset as int) + " (isolation "@
                            + text::dec(isolation_level as int) + ") answered "@
                            + row.error.shown@,
                        at,
                    ),
                )
            },
        },
    }
}

pub fn fetch_partition<'a>(
    tape: &'a Vec<Event>,
    at: usize,
    conn: usize,
    version: i16,
    topic: &str,
    partition: i32,
    offset: i64,
    isolation_level: i8,
    correlation: i32,
) -> (r: Flow<&'a FetchedRow>)
    ensures
        tape::read(r) == spec_fetch_partition(
            tape@,
            at as int,
            conn,
            version,
            topic@,
            partition,
            offset,
            isolation_level,
            correlation,
        ),
{
    let (answer, at) = asks::ask_fetch(
        tape,
        at,
        Label::Named("Fetch"),
        ActionOf::Call {
            conn,
            version,
            correlation,
            request: RequestOf::Fetch {
                topic: TopicOf::Name(String::from_str(topic)),
                partition,
                offset,
                max_wait_ms: 500,
                min_bytes: 0,
                max_bytes: 4_194_304,
                isolation_level,
            },
        },
    )?;
    match fetched_row(answer) {
        None => Err(violation(String::from_str("Fetch response names no partitions"), at)),
        Some(row) => if row.error.is_ok() {
            Ok((row, at))
        } else {
            Err(
                violation(
                    line("Fetch for ").lit(topic).lit("[").num(partition as i64).lit(
                        "] at offset ",
                    ).num(offset).lit(" (isolation ").num(isolation_level as i64).lit(
                        ") answered ",
                    ).lit(row.error.shown.as_str()).done(),
                    at,
                ),
            )
        },
    }
}

/// A fetch refusal names the code written `name`.
pub open spec fn refusal_of(details: Seq<char>, name: Seq<char>) -> bool {
    text::has_text(details, "answered "@ + name)
}

/// Whether a fetch refusal names the code written `name`.
pub fn fetch_refusal_names(details: &str, name: &str) -> (r: bool)
    ensures
        r == refusal_of(details@, name@),
{
    let sought = line("answered ").lit(name).done();
    contains_text(details, sought.as_str())
}

/// A refusal that means "not from me, not yet".
pub open spec fn spec_mentions_retriable(details: Seq<char>, names: CodeNames) -> bool {
    refusal_of(details, names.not_leader_or_follower@) || refusal_of(
        details,
        names.unknown_topic_or_partition@,
    ) || refusal_of(details, names.leader_not_available@) || refusal_of(
        details,
        names.unknown_topic_id@,
    ) || refusal_of(details, names.replica_not_available@)
}

pub fn mentions_retriable(details: &str, names: &CodeNames) -> (r: bool)
    ensures
        r == spec_mentions_retriable(details@, *names),
{
    fetch_refusal_names(details, names.not_leader_or_follower.as_str()) || fetch_refusal_names(
        details,
        names.unknown_topic_or_partition.as_str(),
    ) || fetch_refusal_names(details, names.leader_not_available.as_str()) || fetch_refusal_names(
        details,
        names.unknown_topic_id.as_str(),
    ) || fetch_refusal_names(details, names.replica_not_available.as_str())
}

/// The same, for a loop waiting on a transaction marker: a committed reader
/// is refused at an offset that is not decided yet.
pub open spec fn spec_still_resolving(details: Seq<char>, names: CodeNames) -> bool {
    spec_mentions_retriable(details, names) || refusal_of(details, names.offset_out_of_range@)
}

pub fn still_resolving(details: &str, names: &CodeNames) -> (r: bool)
    ensures
        r == spec_still_resolving(details@, *names),
{
    mentions_retriable(details, names) || fetch_refusal_names(
        details,
        names.offset_out_of_range.as_str(),
    )
}

/// The same fetch, from the given attempt on, waiting out refusals that mean
/// "not yet".
pub open spec fn spec_fetch_settled(
    ctx: ServerCtx,
    tape: Seq<Event>,
    at: int,
    conn: usize,
    version: i16,
    topic: Seq<char>,
    offset: i64,
    isolation_level: i8,
    base: i32,
    attempt: int,
    last: ErrorView,
) -> FlowView<FetchedRow>
    decreases ctx.config.spec_settle_attempts() - attempt,
{
    if attempt >= ctx.config.spec_settle_attempts() {
        Err(HaltView::Broke(last, at))
    } else {
        match tape::spec_pause_between(tape, at, attempt) {
            Err(halt) => Err(halt),
            Ok((_, at)) => match spec_fetch_partition(
                tape,
                at,
                conn,
                version,
                topic,
                0,
                offset,
                isolation_level,
                ctx::spec_correlation(base, attempt),
            ) {
                Ok(done) => Ok(done),
                Err(HaltView::Broke(ErrorView::Violation(details), at)) =>
                    if spec_mentions_retriable(details, ctx.names) || (isolation_level
                        == READ_COMMITTED && spec_still_resolving(details, ctx.names)) {
                        spec_fetch_settled(
                            ctx,
                            tape,
                            at,
                            conn,
                            version,
                            topic,
                            offset,
                            isolation_level,
                            base,
                            attempt + 1,
                            ErrorView::Violation(details),
                        )
                    } else {
                        Err(tape::spec_violation(details, at))
                    },
                Err(halt) => Err(halt),
            },
        }
    }
}

pub fn fetch_partition_settled<'a>(
    ctx: &ServerCtx,
    tape: &'a Vec<Event>,
    at: usize,
    conn: usize,
    version: i16,
    topic: &str,
    offset: i64,
    isolation_level: i8,
    base: i32,
) -> (r: Flow<&'a FetchedRow>)
    ensures
        tape::read(r) == spec_fetch_settled(
            *ctx,
            tape@,
            at as int,
            conn,
            version,
            topic@,
            offset,
            isolation_level,
            base,
            0,
            ErrorView::Infra("no fetch attempts were made"@),
        ),
{
    let attempts: u32 = ctx.config.settle_attempts();
    let mut last = CheckError::Infra(String::from_str("no fetch attempts were made"));
    let mut here: usize = at;
    let mut attempt: u32 = 0;
    while attempt < attempts
        invariant
            attempt <= attempts,
            attempts == ctx.config.spec_settle_attempts(),
            spec_fetch_settled(
                *ctx,
                tape@,
                at as int,
                conn,
                version,
                topic@,
                offset,
                isolation_level,
                base,
                0,
                ErrorView::Infra("no fetch attempts were made"@),
            ) == spec_fetch_settled(
                *ctx,
                tape@,
                here as int,
                conn,
                version,
                topic@,
                offset,
                isolation_level,
                base,
                attempt as int,
                last@,
            ),
        decreases attempts - attempt,
    {
        let (_, next) = pause_between(tape, here, attempt)?;
        match fetch_partition(
            tape,
            next,
            conn,
            version,
            topic,
            0,
            offset,
            isolation_level,
            correlation(base, attempt),
        ) {
            Ok(done) => return Ok(done),
            Err(Halt::Broke(CheckError::Violation(details), next)) => {
                if !(mentions_retriable(details.as_str(), &ctx.names) || (isolation_level
                    == READ_COMMITTED && still_resolving(details.as_str(), &ctx.names))) {
                    return Err(violation(details, next));
                }
                last = CheckError::Violation(details);
                here = next;
            },
            Err(halt) => return Err(halt),
        }
        attempt = attempt + 1;
    }
    Err(Halt::Broke(last, here))
}

/// One fetch with a stated `min_bytes` and `max_wait_ms`: how long it took.
pub open spec fn spec_fetch_with_wait(
    tape: Seq<Event>,
    at: int,
    conn: usize,
    version: i16,
    topic: Seq<char>,
    offset: i64,
    min_bytes: i32,
    max_wait_ms: i32,
    correlation: i32,
) -> FlowView<u64> {
    match asks::spec_ask_fetch(
        tape,
        at,
        Label::Named("Fetch"@),
        ActionOf::Call {
            conn,
            version,
            correlation,
            request: RequestOf::Fetch {
                topic: TopicOf::Name(topic),
                partition: 0,
                offset,
                max_wait_ms,
                min_bytes,
                max_bytes: 4_194_304,
                isolation_level: 0,
            },
        },
    ) {
        Err(halt) => Err(halt),
        Ok((_, next)) => Ok((tape::spec_took(tape, at), next)),
    }
}

pub fn fetch_with_wait(
    tape: &Vec<Event>,
    at: usize,
    conn: usize,
    version: i16,
    topic: &str,
    offset: i64,
    min_bytes: i32,
    max_wait_ms: i32,
    correlation: i32,
) -> (r: Flow<u64>)
    ensures
        tape::ran(r) == spec_fetch_with_wait(
            tape@,
            at as int,
            conn,
            version,
            topic@,
            offset,
            min_bytes,
            max_wait_ms,
            correlation,
        ),
{
    let (_, next) = asks::ask_fetch(
        tape,
        at,
        Label::Named("Fetch"),
        ActionOf::Call {
            conn,
            version,
            correlation,
            request: RequestOf::Fetch {
                topic: TopicOf::Name(String::from_str(topic)),
                partition: 0,
                offset,
                max_wait_ms,
                min_bytes,
                max_bytes: 4_194_304,
                isolation_level: 0,
            },
        },
    )?;
    Ok((tape::took(tape, at), next))
}

} // verus!

//! The steps of the group checks: coordinators, offsets and memberships.

use vstd::prelude::*;
use vstd::string::*;

use crate::checks::asks;
use crate::checks::ctx;
use crate::checks::ctx::{correlation, ServerCtx};
use crate::checks::find;
use crate::checks::find::{
    commit_entry, committed_entry, coordinator_endpoint, first, group_entry, is_topic_known,
    still_settling,
};
use crate::checks::flows;
use crate::checks::flows::{metadata_of_topic, ProducedTopic, ProducedView};
use crate::checks::tape;
use crate::checks::tape::{
    connect, fail, pause_between, violation, ActionOf, CheckError, ErrorView, Event, Flow,
    FlowView, Halt, HaltView, Label,
};
use crate::text;
use crate::text::{contains_text, line, same_text};
use crate::wire;
use crate::wire::{
    AssignedTopic, ConsumerGroupAnswer, ErrorCode, JoinGroupAnswer, OffsetFetchAnswer, RequestOf,
    TopicId, TopicOf, FIND_COORDINATOR, FIND_COORDINATOR_BATCHED, METADATA, OFFSETS_BY_TOPIC_ID,
    OFFSET_FETCH_BATCHED,
};

verus! {

/// Where something is, if it is anywhere.
pub struct Place(pub Option<String>);

impl View for Place {
    type V = Option<Seq<char>>;

    open spec fn view(&self) -> Option<Seq<char>> {
        wire::opt_view(self.0)
    }
}

/// Asking for the coordinator of a key, from the given attempt on, until the
/// cluster has one or the attempts are spent.
pub open spec fn spec_ask_coordinator(
    ctx: ServerCtx,
    tape: Seq<Event>,
    at: int,
    conn: usize,
    version: i16,
    key_type: i8,
    key: Seq<char>,
    base: i32,
    attempt: int,
) -> FlowView<Option<Seq<char>>>
    decreases ctx.config.spec_settle_attempts() - attempt,
{
    if attempt >= ctx.config.spec_settle_attempts() {
        Ok((None, at))
    } else {
        match tape::spec_pause_between(tape, at, attempt) {
            Err(halt) => Err(halt),
            Ok((_, at)) => match asks::spec_ask_find_coordinator(
                tape,
                at,
                Label::Named("FindCoordinator"@),
                ActionOf::Call {
                    conn,
                    version,
                    correlation: ctx::spec_correlation(base, attempt),
                    request: RequestOf::FindCoordinator {
                        key_type,
                        key,
                        batched: version >= FIND_COORDINATOR_BATCHED,
                    },
                },
            ) {
                Err(halt) => Err(halt),
                Ok((answer, at)) => if find::coordinator_settling(answer, version) {
                    spec_ask_coordinator(
                        ctx,
                        tape,
                        at,
                        conn,
                        version,
                        key_type,
                        key,
                        base,
                        attempt + 1,
                    )
                } else {
                    Ok((find::spec_coordinator_endpoint(answer, version), at))
                },
            },
        }
    }
}

pub fn ask_coordinator(
    ctx: &ServerCtx,
    tape: &Vec<Event>,
    at: usize,
    conn: usize,
    version: i16,
    key_type: i8,
    key: &str,
    base: i32,
) -> (r: Flow<Place>)
    ensures
        tape::ran(r) == spec_ask_coordinator(
            *ctx,
            tape@,
            at as int,
            conn,
            version,
            key_type,
            key@,
            base,
            0,
        ),
{
    let attempts: u32 = ctx.config.settle_attempts();
    let mut here: usize = at;
    let mut attempt: u32 = 0;
    while attempt < attempts
        invariant
            attempt <= attempts,
            attempts == ctx.config.spec_settle_attempts(),
            spec_ask_coordinator(*ctx, tape@, at as int, conn, version, key_type, key@, base, 0)
                == spec_ask_coordinator(
                *ctx,
                tape@,
                here as int,
                conn,
                version,
                key_type,
                key@,
                base,
                attempt as int,
            ),
        decreases attempts - attempt,
    {
        let (_, next) = pause_between(tape, here, attempt)?;
        let (answer, next) = asks::ask_find_coordinator(
            tape,
            next,
            Label::Named("FindCoordinator"),
            ActionOf::Call {
                conn,
                version,
                correlation: correlation(base, attempt),
                request: RequestOf::FindCoordinator {
                    key_type,
                    key: String::from_str(key),
                    batched: version >= FIND_COORDINATOR_BATCHED,
                },
            },
        )?;
        if !still_settling(answer, version) {
            return Ok((Place(coordinator_endpoint(answer, version)), next));
        }
        here = next;
        attempt = attempt + 1;
    }
    Ok((Place(None), here))
}

/// Waiting for a group's coordinator to exist, asking the broker at `addr`.
/// A subject that advertises no FindCoordinator is not asked.
pub open spec fn spec_await_coordinator_at(
    ctx: ServerCtx,
    tape: Seq<Event>,
    at: int,
    addr: Seq<char>,
    group: Seq<char>,
) -> FlowView<Option<Seq<char>>> {
    match ctx.spec_pick(
        "FindCoordinator"@,
        FIND_COORDINATOR,
        ctx.schema.find_coordinator.min,
        ctx.schema.find_coordinator.max,
    ) {
        Err(_) => Ok((None, at)),
        Ok(version) => match tape::spec_connect(tape, at, addr) {
            Err(halt) => Err(halt),
            Ok((conn, at)) => spec_ask_coordinator(ctx, tape, at, conn, version, 0, group, 80, 0),
        },
    }
}

pub fn await_coordinator_at(
    ctx: &ServerCtx,
    tape: &Vec<Event>,
    at: usize,
    addr: &str,
    group: &str,
) -> (r: Flow<Place>)
    ensures
        tape::ran(r) == spec_await_coordinator_at(*ctx, tape@, at as int, addr@, group@),
{
    let version: i16 = match ctx.pick(
        "FindCoordinator",
        FIND_COORDINATOR,
        ctx.schema.find_coordinator.min,
        ctx.schema.find_coordinator.max,
    ) {
        Err(_) => return Ok((Place(None), at)),
        Ok(version) => version,
    };
    let (conn, at) = connect(tape, at, addr)?;
    ask_coordinator(ctx, tape, at, conn, version, 0, group, 80)
}

/// A connection to the broker that coordinates `group`, or to the bootstrap
/// address where the cluster names none.
pub open spec fn spec_coordinator_conn(ctx: ServerCtx, tape: Seq<Event>, at: int, group: Seq<char>)
    -> FlowView<usize> {
    match spec_await_coordinator_at(ctx, tape, at, ctx.addr@, group) {
        Err(halt) => Err(halt),
        Ok((Some(addr), at)) => tape::spec_connect(tape, at, addr),
        Ok((None, at)) => tape::spec_connect(tape, at, ctx.addr@),
    }
}

pub fn coordinator_conn(ctx: &ServerCtx, tape: &Vec<Event>, at: usize, group: &str) -> (r: Flow<
    usize,
>)
    ensures
        tape::ran(r) == spec_coordinator_conn(*ctx, tape@, at as int, group@),
{
    let (place, at) = await_coordinator_at(ctx, tape, at, ctx.addr.as_str(), group)?;
    match place.0 {
        Some(addr) => connect(tape, at, addr.as_str()),
        None => connect(tape, at, ctx.addr.as_str()),
    }
}

/// Waiting until the broker on `conn` has heard of `topic`, from the given
/// attempt on. Best effort: a topic that never shows up is left for the call
/// that follows to report.
pub open spec fn spec_topic_wait(
    ctx: ServerCtx,
    tape: Seq<Event>,
    at: int,
    conn: usize,
    version: i16,
    topic: Seq<char>,
    base: i32,
    attempt: int,
) -> FlowView<()>
    decreases ctx.config.spec_settle_attempts() - attempt,
{
    if attempt >= ctx.config.spec_settle_attempts() {
        Ok(((), at))
    } else {
        match tape::spec_pause_between(tape, at, attempt) {
            Err(halt) => Err(halt),
            Ok((_, at)) => match flows::spec_metadata(
                tape,
                at,
                conn,
                version,
                Some(topic),
                ctx::spec_correlation(base, attempt),
            ) {
                Err(halt) => Err(halt),
                Ok((answer, at)) => if find::knows_topic(answer, topic) {
                    Ok(((), at))
                } else {
                    spec_topic_wait(ctx, tape, at, conn, version, topic, base, attempt + 1)
                },
            },
        }
    }
}

pub open spec fn spec_await_topic_known(
    ctx: ServerCtx,
    tape: Seq<Event>,
    at: int,
    conn: usize,
    topic: Seq<char>,
    base: i32,
) -> FlowView<()> {
    match ctx.spec_pick("Metadata"@, METADATA, 1, ctx.schema.metadata.max) {
        Err(_) => Ok(((), at)),
        Ok(version) => spec_topic_wait(ctx, tape, at, conn, version, topic, base, 0),
    }
}

pub fn await_topic_known(
    ctx: &ServerCtx,
    tape: &Vec<Event>,
    at: usize,
    conn: usize,
    topic: &str,
    base: i32,
) -> (r: Flow<()>)
    ensures
        tape::ran(r) == spec_await_topic_known(*ctx, tape@, at as int, conn, topic@, base),
{
    let version: i16 = match ctx.pick("Metadata", METADATA, 1, ctx.schema.metadata.max) {
        Err(_) => return Ok(((), at)),
        Ok(version) => version,
    };
    let attempts: u32 = ctx.config.settle_attempts();
    let mut here: usize = at;
    let mut attempt: u32 = 0;
    while attempt < attempts
        invariant
            attempt <= attempts,
            attempts == ctx.config.spec_settle_attempts(),
            spec_await_topic_known(*ctx, tape@, at as int, conn, topic@, base) == spec_topic_wait(
                *ctx,
                tape@,
                here as int,
                conn,
                version,
                topic@,
                base,
                attempt as int,
            ),
        decreases attempts - attempt,
    {
        let (_, next) = pause_between(tape, here, attempt)?;
        let (answer, next) = metadata_of_topic(
            tape,
            next,
            conn,
            version,
            topic,
            correlation(base, attempt),
        )?;
        if is_topic_known(answer, topic) {
            return Ok(((), next));
        }
        here = next;
        attempt = attempt + 1;
    }
    Ok(((), here))
}

/// A topic as the offset apis address it at `version`.
pub open spec fn spec_offsets_topic(version: i16, topic: Seq<char>, id: TopicId) -> TopicOf<
    Seq<char>,
> {
    if version >= OFFSETS_BY_TOPIC_ID {
        TopicOf::Id(id)
    } else {
        TopicOf::Name(topic)
    }
}

pub fn offsets_topic(version: i16, topic: &str, id: TopicId) -> (r: TopicOf<String>)
    ensures
        r@ == spec_offsets_topic(version, topic@, id),
{
    if version >= OFFSETS_BY_TOPIC_ID {
        TopicOf::Id(id)
    } else {
        TopicOf::Name(String::from_str(topic))
    }
}

/// Committing an offset for partition 0 of a topic, as a consumer that is no
/// member does.
pub open spec fn spec_commit_offset(
    tape: Seq<Event>,
    at: int,
    conn: usize,
    version: i16,
    group: Seq<char>,
    topic: Seq<char>,
    topic_id: TopicId,
    offset: i64,
    correlation: i32,
) -> FlowView<()> {
    match asks::spec_ask_offset_commit(
        tape,
        at,
        Label::Named("OffsetCommit"@),
        ActionOf::Call {
            conn,
            version,
            correlation,
            request: RequestOf::OffsetCommit {
                group,
                topic: spec_offsets_topic(version, topic, topic_id),
                offset,
                metadata: None,
            },
        },
    ) {
        Err(halt) => Err(halt),
        Ok((topics, at)) => match (match find::first_where(
            topics@,
            find::commit_for(version, topic, topic_id),
        ) {
            Some(entry) => find::head(entry.partitions@),
            None => None,
        }) {
            None => Err(
                tape::spec_violation("OffsetCommit response omits "@ + topic + "[0]"@, at),
            ),
            Some(code) => if code.ok() {
                Ok(((), at))
            } else {
                Err(
                    tape::spec_violation(
                        "committing "@ + text::dec(offset as int) + " for "@ + topic
                            + "[0] failed: "@ + code.shown@,
                        at,
                    ),
                )
            },
        },
    }
}

pub fn commit_offset(
    tape: &Vec<Event>,
    at: usize,
    conn: usize,
    version: i16,
    group: &str,
    topic: &str,
    topic_id: TopicId,
    offset: i64,
    correlation: i32,
) -> (r: Flow<()>)
    ensures
        tape::ran(r) == spec_commit_offset(
            tape@,
            at as int,
            conn,
            version,
            group@,
            topic@,
            topic_id,
            offset,
            correlation,
        ),
{
    let (topics, at) = asks::ask_offset_commit(
        tape,
        at,
        Label::Named("OffsetCommit"),
        ActionOf::Call {
            conn,
            version,
            correlation,
            request: RequestOf::OffsetCommit {
                group: String::from_str(group),
                topic: offsets_topic(version, topic, topic_id),
                offset,
                metadata: None,
            },
        },
    )?;
    let code = match commit_entry(topics, version, topic, &topic_id) {
        Some(entry) => first(&entry.partitions),
        None => None,
    };
    match code {
        None => Err(
            violation(line("OffsetCommit response omits ").lit(topic).lit("[0]").done(), at),
        ),
        Some(code) => if code.is_ok() {
            Ok(((), at))
        } else {
            Err(
                violation(
                    line("committing ").num(offset).lit(" for ").lit(topic).lit(
                        "[0] failed: ",
                    ).lit(code.shown.as_str()).done(),
                    at,
                ),
            )
        },
    }
}

/// One attempt at a commit on whichever broker coordinates the group now:
/// the connection that was used, and what came of the commit.
pub open spec fn spec_commit_settled(
    ctx: ServerCtx,
    tape: Seq<Event>,
    at: int,
    group: Seq<char>,
    produced: ProducedView,
    offset: i64,
    version: i16,
    base: i32,
    attempt: int,
    last: ErrorView,
) -> FlowView<usize>
    decreases ctx.config.spec_settle_attempts() - attempt,
{
    if attempt >= ctx.config.spec_settle_attempts() {
        Err(HaltView::Broke(last, at))
    } else {
        match tape::spec_pause_between(tape, at, attempt) {
            Err(halt) => Err(halt),
            Ok((_, at)) => match spec_coordinator_conn(ctx, tape, at, group) {
                Err(halt) => Err(halt),
                Ok((conn, at)) => match spec_await_topic_known(
                    ctx,
                    tape,
                    at,
                    conn,
                    produced.topic,
                    base,
                ) {
                    Err(halt) => Err(halt),
                    Ok((_, at)) => match spec_commit_offset(
                        tape,
                        at,
                        conn,
                        version,
                        group,
                        produced.topic,
                        produced.topic_id,
                        offset,
                        base.wrapping_add(1),
                    ) {
                        Ok((_, at)) => Ok((conn, at)),
                        Err(HaltView::Broke(ErrorView::Violation(details), at)) =>
                            if text::has_text(details, ctx.names.not_coordinator@) {
                                spec_commit_settled(
                                    ctx,
                                    tape,
                                    at,
                                    group,
                                    produced,
                                    offset,
                                    version,
                                    base,
                                    attempt + 1,
                                    ErrorView::Violation(details),
                                )
                            } else {
                                Err(HaltView::Broke(ErrorView::Violation(details), at))
                            },
                        Err(halt) => Err(halt),
                    },
                },
            },
        }
    }
}

/// Commits an offset, following the cluster when it says the group's
/// coordinator is somewhere else, and hands back the connection that took it.
pub fn commit_offset_settled(
    ctx: &ServerCtx,
    tape: &Vec<Event>,
    at: usize,
    group: &str,
    produced: &ProducedTopic,
    offset: i64,
    version: i16,
    base: i32,
) -> (r: Flow<usize>)
    ensures
        tape::ran(r) == spec_commit_settled(
            *ctx,
            tape@,
            at as int,
            group@,
            produced@,
            offset,
            version,
            base,
            0,
            ErrorView::Infra("no commit attempts were made"@),
        ),
{
    let attempts: u32 = ctx.config.settle_attempts();
    let mut last = CheckError::Infra(String::from_str("no commit attempts were made"));
    let mut here: usize = at;
    let mut attempt: u32 = 0;
    while attempt < attempts
        invariant
            attempt <= attempts,
            attempts == ctx.config.spec_settle_attempts(),
            spec_commit_settled(
                *ctx,
                tape@,
                at as int,
                group@,
                produced@,
                offset,
                version,
                base,
                0,
                ErrorView::Infra("no commit attempts were made"@),
            ) == spec_commit_settled(
                *ctx,
                tape@,
                here as int,
                group@,
                produced@,
                offset,
                version,
                base,
                attempt as int,
                last@,
            ),
        decreases attempts - attempt,
    {
        let (_, next) = pause_between(tape, here, attempt)?;
        let (conn, next) = coordinator_conn(ctx, tape, next, group)?;
        let (_, next) = await_topic_known(ctx, tape, next, conn, produced.topic.as_str(), base)?;
        match commit_offset(
            tape,
            next,
            conn,
            version,
            group,
            produced.topic.as_str(),
            produced.topic_id,
            offset,
            base.wrapping_add(1),
        ) {
            Ok((_, next)) => return Ok((conn, next)),
            Err(Halt::Broke(CheckError::Violation(details), next)) => {
                if !contains_text(details.as_str(), ctx.names.not_coordinator.as_str()) {
                    return Err(Halt::Broke(CheckError::Violation(details), next));
                }
                last = CheckError::Violation(details);
                here = next;
            },
            Err(halt) => return Err(halt),
        }
        attempt = attempt + 1;
    }
    Err(Halt::Broke(last, here))
}

/// What an OffsetFetch answer reports for partition 0 of a topic.
pub open spec fn spec_committed_row(
    answer: OffsetFetchAnswer,
    version: i16,
    group: Seq<char>,
    topic: Seq<char>,
    topic_id: TopicId,
) -> Result<(ErrorCode, i64), Seq<char>> {
    if version >= OFFSET_FETCH_BATCHED {
        match find::first_where(answer.groups@, find::for_group(group)) {
            None => Err("OffsetFetch response omits group "@ + text::quoted(group)),
            Some(entry) => match (match find::first_where(
                entry.topics@,
                find::committed_for(version, topic, topic_id),
            ) {
                Some(t) => find::head(t.partitions@),
                None => None,
            }) {
                None => Err("OffsetFetch response omits "@ + topic + "[0]"@),
                Some(row) => Ok(
                    (if entry.error.ok() { row.error } else { entry.error }, row.offset),
                ),
            },
        }
    } else {
        match (match find::first_where(
            answer.topics@,
            find::committed_for(version, topic, topic_id),
        ) {
            Some(t) => find::head(t.partitions@),
            None => None,
        }) {
            None => Err("OffsetFetch response omits "@ + topic + "[0]"@),
            Some(row) => Ok((row.error, row.offset)),
        }
    }
}

fn committed_row<'a>(
    answer: &'a OffsetFetchAnswer,
    version: i16,
    group: &str,
    topic: &str,
    topic_id: &TopicId,
) -> (r: Result<(&'a ErrorCode, i64), String>)
    ensures
        (match r {
            Ok((code, offset)) => Ok::<(ErrorCode, i64), Seq<char>>((*code, offset)),
            Err(details) => Err::<(ErrorCode, i64), Seq<char>>(details@),
        }) == spec_committed_row(*answer, version, group@, topic@, *topic_id),
{
    if version >= OFFSET_FETCH_BATCHED {
        let entry = match group_entry(&answer.groups, group) {
            None => return Err(line("OffsetFetch response omits group ").quote(group).done()),
            Some(entry) => entry,
        };
        let row = match committed_entry(&entry.topics, version, topic, topic_id) {
            Some(t) => first(&t.partitions),
            None => None,
        };
        match row {
            None => Err(line("OffsetFetch response omits ").lit(topic).lit("[0]").done()),
            Some(row) => if entry.error.is_ok() {
                Ok((&row.error, row.offset))
            } else {
                Ok((&entry.error, row.offset))
            },
        }
    } else {
        let row = match committed_entry(&answer.topics, version, topic, topic_id) {
            Some(t) => first(&t.partitions),
            None => None,
        };
        match row {
            None => Err(line("OffsetFetch response omits ").lit(topic).lit("[0]").done()),
            Some(row) => Ok((&row.error, row.offset)),
        }
    }
}

pub open spec fn spec_offset_fetch(
    tape: Seq<Event>,
    at: int,
    conn: usize,
    version: i16,
    group: Seq<char>,
    topic: Seq<char>,
    topic_id: TopicId,
    correlation: i32,
) -> FlowView<OffsetFetchAnswer> {
    asks::spec_ask_offset_fetch(
        tape,
        at,
        Label::Named("OffsetFetch"@),
        ActionOf::Call {
            conn,
            version,
            correlation,
            request: RequestOf::OffsetFetch {
                group,
                topic: spec_offsets_topic(version, topic, topic_id),
                batched: version >= OFFSET_FETCH_BATCHED,
            },
        },
    )
}

pub fn offset_fetch<'a>(
    tape: &'a Vec<Event>,
    at: usize,
    conn: usize,
    version: i16,
    group: &str,
    topic: &str,
    topic_id: TopicId,
    correlation: i32,
) -> (r: Flow<&'a OffsetFetchAnswer>)
    ensures
        tape::read(r) == spec_offset_fetch(
            tape@,
            at as int,
            conn,
            version,
            group@,
            topic@,
            topic_id,
            correlation,
        ),
{
    asks::ask_offset_fetch(
        tape,
        at,
        Label::Named("OffsetFetch"),
        ActionOf::Call {
            conn,
            version,
            correlation,
            request: RequestOf::OffsetFetch {
                group: String::from_str(group),
                topic: offsets_topic(version, topic, topic_id),
                batched: version >= OFFSET_FETCH_BATCHED,
            },
        },
    )
}

/// Reading back what a group committed for partition 0 of a topic.
pub open spec fn spec_fetch_committed(
    tape: Seq<Event>,
    at: int,
    conn: usize,
    version: i16,
    group: Seq<char>,
    topic: Seq<char>,
    topic_id: TopicId,
    correlation: i32,
) -> FlowView<i64> {
    match spec_offset_fetch(tape, at, conn, version, group, topic, topic_id, correlation) {
        Err(halt) => Err(halt),
        Ok((answer, at)) => match spec_committed_row(answer, version, group, topic, topic_id) {
            Err(details) => Err(tape::spec_violation(details, at)),
            Ok((code, offset)) => if code.ok() {
                Ok((offset, at))
            } else {
                Err(
                    tape::spec_violation(
                        "reading the committed offset for "@ + topic + "[0] failed: "@
                            + code.shown@,
                        at,
                    ),
                )
            },
        },
    }
}

pub fn fetch_committed(
    tape: &Vec<Event>,
    at: usize,
    conn: usize,
    version: i16,
    group: &str,
    topic: &str,
    topic_id: TopicId,
    correlation: i32,
) -> (r: Flow<i64>)
    ensures
        tape::ran(r) == spec_fetch_committed(
            tape@,
            at as int,
            conn,
            version,
            group@,
            topic@,
            topic_id,
            correlation,
        ),
{
    let (answer, at) = offset_fetch(
        tape,
        at,
        conn,
        version,
        group,
        topic,
        topic_id,
        correlation,
    )?;
    match committed_row(answer, version, group, topic, &topic_id) {
        Err(details) => Err(violation(details, at)),
        Ok((code, offset)) => if code.is_ok() {
            Ok((offset, at))
        } else {
            Err(
                violation(
                    line("reading the committed offset for ").lit(topic).lit("[0] failed: ").lit(
                        code.shown.as_str(),
                    ).done(),
                    at,
                ),
            )
        },
    }
}

/// The metadata committed for the first partition an answer names.
pub open spec fn spec_first_metadata(answer: OffsetFetchAnswer, version: i16) -> Option<Seq<char>> {
    let topics = if version >= OFFSET_FETCH_BATCHED {
        match find::head(answer.groups@) {
            Some(g) => find::head(g.topics@),
            None => None,
        }
    } else {
        find::head(answer.topics@)
    };
    match topics {
        Some(t) => match find::head(t.partitions@) {
            Some(row) => wire::opt_view(row.metadata),
            None => None,
        },
        None => None,
    }
}

fn first_metadata(answer: &OffsetFetchAnswer, version: i16) -> (r: Option<&String>)
    ensures
        (match r {
            Some(m) => Some(m@),
            None => None,
        }) == spec_first_metadata(*answer, version),
{
    let topics = if version >= OFFSET_FETCH_BATCHED {
        match first(&answer.groups) {
            Some(g) => first(&g.topics),
            None => None,
        }
    } else {
        first(&answer.topics)
    };
    match topics {
        Some(t) => match first(&t.partitions) {
            Some(row) => match &row.metadata {
                Some(m) => Some(m),
                None => None,
            },
            None => None,
        },
        None => None,
    }
}

pub open spec fn spec_fetch_committed_metadata(
    tape: Seq<Event>,
    at: int,
    conn: usize,
    version: i16,
    group: Seq<char>,
    topic: Seq<char>,
    topic_id: TopicId,
    correlation: i32,
) -> FlowView<Option<Seq<char>>> {
    match spec_offset_fetch(tape, at, conn, version, group, topic, topic_id, correlation) {
        Err(halt) => Err(halt),
        Ok((answer, at)) => Ok((spec_first_metadata(answer, version), at)),
    }
}

/// The committed metadata for partition 0, as OffsetFetch reports it.
pub fn fetch_committed_metadata(
    tape: &Vec<Event>,
    at: usize,
    conn: usize,
    version: i16,
    group: &str,
    topic: &str,
    topic_id: TopicId,
    correlation: i32,
) -> (r: Flow<Place>)
    ensures
        tape::ran(r) == spec_fetch_committed_metadata(
            tape@,
            at as int,
            conn,
            version,
            group@,
            topic@,
            topic_id,
            correlation,
        ),
{
    let (answer, at) = offset_fetch(
        tape,
        at,
        conn,
        version,
        group,
        topic,
        topic_id,
        correlation,
    )?;
    match first_metadata(answer, version) {
        Some(m) => Ok((Place(Some(m.clone())), at)),
        None => Ok((Place(None), at)),
    }
}

/// One JoinGroup exchange.
pub open spec fn spec_join_group(
    tape: Seq<Event>,
    at: int,
    conn: usize,
    version: i16,
    group: Seq<char>,
    member_id: Seq<char>,
    correlation: i32,
) -> FlowView<JoinGroupAnswer> {
    asks::spec_ask_join_group(
        tape,
        at,
        Label::Named("JoinGroup"@),
        ActionOf::Call {
            conn,
            version,
            correlation,
            request: RequestOf::JoinGroup { group, member_id },
        },
    )
}

pub fn join_group<'a>(
    tape: &'a Vec<Event>,
    at: usize,
    conn: usize,
    version: i16,
    group: &str,
    member_id: &str,
    correlation: i32,
) -> (r: Flow<&'a JoinGroupAnswer>)
    ensures
        tape::read(r) == spec_join_group(
            tape@,
            at as int,
            conn,
            version,
            group@,
            member_id@,
            correlation,
        ),
{
    asks::ask_join_group(
        tape,
        at,
        Label::Named("JoinGroup"),
        ActionOf::Call {
            conn,
            version,
            correlation,
            request: RequestOf::JoinGroup {
                group: String::from_str(group),
                member_id: String::from_str(member_id),
            },
        },
    )
}

/// What the last answer of a join says of the member it was for.
pub open spec fn spec_joined(member_id: Seq<char>, joined: JoinGroupAnswer, at: int) -> FlowView<
    (Seq<char>, i32),
> {
    if !joined.error.ok() {
        Err(
            tape::spec_violation(
                "rejoining with the coordinator's own member id answered "@ + joined.error.shown@,
                at,
            ),
        )
    } else if joined.leader@ != member_id {
        Err(
            tape::spec_violation(
                "sole member "@ + text::quoted(member_id) + " was not made leader (leader is "@
                    + text::quoted(joined.leader@) + ")"@,
                at,
            ),
        )
    } else {
        Ok(((member_id, joined.generation_id), at))
    }
}

fn judge_joined(member_id: &String, joined: &JoinGroupAnswer, at: usize) -> (r: Flow<(String, i32)>)
    ensures
        tape::ran(r) == spec_joined(member_id@, *joined, at as int),
{
    if !joined.error.is_ok() {
        return Err(
            violation(
                line("rejoining with the coordinator's own member id answered ").lit(
                    joined.error.shown.as_str(),
                ).done(),
                at,
            ),
        );
    }
    if !same_text(joined.leader.as_str(), member_id.as_str()) {
        return Err(
            violation(
                line("sole member ").quote(member_id.as_str()).lit(
                    " was not made leader (leader is ",
                ).quote(joined.leader.as_str()).lit(")").done(),
                at,
            ),
        );
    }
    Ok(((member_id.clone(), joined.generation_id), at))
}

/// Joining a group and becoming its leader: the member id and generation.
pub open spec fn spec_join_as_leader(
    tape: Seq<Event>,
    at: int,
    conn: usize,
    version: i16,
    group: Seq<char>,
    base: i32,
) -> FlowView<(Seq<char>, i32)> {
    match spec_join_group(tape, at, conn, version, group, ""@, base) {
        Err(halt) => Err(halt),
        Ok((opening, at)) => if opening.error.code == wire::MEMBER_ID_REQUIRED {
            match spec_join_group(
                tape,
                at,
                conn,
                version,
                group,
                opening.member_id@,
                base.wrapping_add(1),
            ) {
                Err(halt) => Err(halt),
                Ok((second, at)) => spec_joined(opening.member_id@, second, at),
            }
        } else if opening.error.ok() {
            spec_joined(opening.member_id@, opening, at)
        } else {
            Err(
                tape::spec_violation(
                    "joining a fresh group answered "@ + opening.error.shown@,
                    at,
                ),
            )
        },
    }
}

pub fn join_as_leader(
    tape: &Vec<Event>,
    at: usize,
    conn: usize,
    version: i16,
    group: &str,
    base: i32,
) -> (r: Flow<(String, i32)>)
    ensures
        tape::ran(r) == spec_join_as_leader(tape@, at as int, conn, version, group@, base),
{
    let (opening, at) = join_group(tape, at, conn, version, group, "", base)?;
    if opening.error.code == wire::MEMBER_ID_REQUIRED {
        let (second, at) = join_group(
            tape,
            at,
            conn,
            version,
            group,
            opening.member_id.as_str(),
            base.wrapping_add(1),
        )?;
        judge_joined(&opening.member_id, second, at)
    } else if opening.error.is_ok() {
        judge_joined(&opening.member_id, opening, at)
    } else {
        Err(
            violation(
                line("joining a fresh group answered ").lit(opening.error.shown.as_str()).done(),
                at,
            ),
        )
    }
}

/// The code a Heartbeat answers with.
pub open spec fn spec_heartbeat_code(
    tape: Seq<Event>,
    at: int,
    label: Label<Seq<char>>,
    conn: usize,
    version: i16,
    group: Seq<char>,
    member_id: Seq<char>,
    generation: i32,
    correlation: i32,
) -> FlowView<ErrorCode> {
    asks::spec_ask_code(
        tape,
        at,
        label,
        ActionOf::Call {
            conn,
            version,
            correlation,
            request: RequestOf::Heartbeat { group, generation, member_id },
        },
    )
}

pub fn heartbeat_code<'a>(
    tape: &'a Vec<Event>,
    at: usize,
    label: Label<&str>,
    conn: usize,
    version: i16,
    group: &str,
    member_id: &str,
    generation: i32,
    correlation: i32,
) -> (r: Flow<&'a ErrorCode>)
    ensures
        tape::read(r) == spec_heartbeat_code(
            tape@,
            at as int,
            label@,
            conn,
            version,
            group@,
            member_id@,
            generation,
            correlation,
        ),
{
    asks::ask_code(
        tape,
        at,
        label,
        ActionOf::Call {
            conn,
            version,
            correlation,
            request: RequestOf::Heartbeat {
                group: String::from_str(group),
                generation,
                member_id: String::from_str(member_id),
            },
        },
    )
}

/// Syncing as the group's only member, so that the group is settled.
pub open spec fn spec_sync_as_leader(
    tape: Seq<Event>,
    at: int,
    conn: usize,
    version: i16,
    group: Seq<char>,
    member_id: Seq<char>,
    generation: i32,
    correlation: i32,
) -> FlowView<()> {
    match tape::spec_doing(
        asks::spec_ask_sync_group(
            tape,
            at,
            Label::Final("SyncGroup"@),
            ActionOf::Call {
                conn,
                version,
                correlation,
                request: RequestOf::SyncGroup {
                    group,
                    generation,
                    member_id,
                    assignment: seq![0u8],
                },
            },
        ),
        "SyncGroup"@,
    ) {
        Err(halt) => Err(halt),
        Ok((answer, at)) => if answer.error.ok() {
            Ok(((), at))
        } else {
            Err(
                tape::spec_fail(
                    "SyncGroup as the group's only member answered "@ + answer.error.shown@,
                    at,
                ),
            )
        },
    }
}

pub fn sync_as_leader(
    tape: &Vec<Event>,
    at: usize,
    conn: usize,
    version: i16,
    group: &str,
    member_id: &str,
    generation: i32,
    correlation: i32,
) -> (r: Flow<()>)
    ensures
        tape::ran(r) == spec_sync_as_leader(
            tape@,
            at as int,
            conn,
            version,
            group@,
            member_id@,
            generation,
            correlation,
        ),
{
    let assignment: Vec<u8> = vec![0u8];
    assert(assignment@ =~= seq![0u8]);
    let (answer, at) = tape::doing_ref(
        asks::ask_sync_group(
            tape,
            at,
            Label::Final("SyncGroup"),
            ActionOf::Call {
                conn,
                version,
                correlation,
                request: RequestOf::SyncGroup {
                    group: String::from_str(group),
                    generation,
                    member_id: String::from_str(member_id),
                    assignment,
                },
            },
        ),
        "SyncGroup",
    )?;
    if answer.error.is_ok() {
        Ok(((), at))
    } else {
        Err(
            fail(
                line("SyncGroup as the group's only member answered ").lit(
                    answer.error.shown.as_str(),
                ).done(),
                at,
            ),
        )
    }
}

/// One ConsumerGroupHeartbeat exchange. `subscribed` is `None` where the
/// member says nothing about its subscription.
pub open spec fn spec_group_heartbeat(
    tape: Seq<Event>,
    at: int,
    conn: usize,
    version: i16,
    group: Seq<char>,
    member_id: Seq<char>,
    epoch: i32,
    subscribed: Option<Seq<char>>,
    correlation: i32,
) -> FlowView<ConsumerGroupAnswer> {
    asks::spec_ask_consumer_group(
        tape,
        at,
        Label::Named("ConsumerGroupHeartbeat"@),
        ActionOf::Call {
            conn,
            version,
            correlation,
            request: RequestOf::ConsumerGroupHeartbeat { group, member_id, epoch, subscribed },
        },
    )
}

pub fn consumer_group_heartbeat<'a>(
    tape: &'a Vec<Event>,
    at: usize,
    conn: usize,
    version: i16,
    group: &str,
    member_id: &str,
    epoch: i32,
    subscribed: Option<&String>,
    correlation: i32,
) -> (r: Flow<&'a ConsumerGroupAnswer>)
    ensures
        tape::read(r) == spec_group_heartbeat(
            tape@,
            at as int,
            conn,
            version,
            group@,
            member_id@,
            epoch,
            (match subscribed {
                Some(s) => Some(s@),
                None => None,
            }),
            correlation,
        ),
{
    let stated = match subscribed {
        Some(s) => Some(s.clone()),
        None => None,
    };
    asks::ask_consumer_group(
        tape,
        at,
        Label::Named("ConsumerGroupHeartbeat"),
        ActionOf::Call {
            conn,
            version,
            correlation,
            request: RequestOf::ConsumerGroupHeartbeat {
                group: String::from_str(group),
                member_id: String::from_str(member_id),
                epoch,
                subscribed: stated,
            },
        },
    )
}

/// The epoch with which a member leaves.
pub const LEAVE_EPOCH: i32 = -1;

/// Leaving, so that a check leaves no member behind; what comes of it does
/// not matter.
pub open spec fn spec_leave_consumer_group(
    tape: Seq<Event>,
    at: int,
    conn: usize,
    version: i16,
    group: Seq<char>,
    member_id: Seq<char>,
    correlation: i32,
) -> FlowView<()> {
    match spec_group_heartbeat(
        tape,
        at,
        conn,
        version,
        group,
        member_id,
        LEAVE_EPOCH,
        None,
        correlation,
    ) {
        Ok((_, at)) => Ok(((), at)),
        Err(HaltView::Broke(_, at)) => Ok(((), at)),
        Err(halt) => Err(halt),
    }
}

pub fn leave_consumer_group(
    tape: &Vec<Event>,
    at: usize,
    conn: usize,
    version: i16,
    group: &str,
    member_id: &str,
    correlation: i32,
) -> (r: Flow<()>)
    ensures
        tape::ran(r) == spec_leave_consumer_group(
            tape@,
            at as int,
            conn,
            version,
            group@,
            member_id@,
            correlation,
        ),
{
    match consumer_group_heartbeat(
        tape,
        at,
        conn,
        version,
        group,
        member_id,
        LEAVE_EPOCH,
        None,
        correlation,
    ) {
        Ok((_, at)) => Ok(((), at)),
        Err(Halt::Broke(_, at)) => Ok(((), at)),
        Err(halt) => Err(halt),
    }
}

/// What an assignment names, nothing where there is none.
pub open spec fn spec_assigned(answer: ConsumerGroupAnswer) -> Seq<AssignedTopic> {
    match answer.assignment {
        Some(topics) => topics@,
        None => Seq::empty(),
    }
}

/// Heartbeating, from the given attempt on, until the coordinator has an
/// assignment to give: the answer that carried it.
pub open spec fn spec_settle_assignment(
    ctx: ServerCtx,
    tape: Seq<Event>,
    at: int,
    conn: usize,
    version: i16,
    group: Seq<char>,
    member_id: Seq<char>,
    topic: Seq<char>,
    base: i32,
    attempt: int,
    epoch: i32,
) -> FlowView<ConsumerGroupAnswer>
    decreases ctx.config.spec_settle_attempts() - attempt,
{
    if attempt >= ctx.config.spec_settle_attempts() {
        Err(
            tape::spec_fail(
                "no assignment for a subscribed topic after "@ + text::duration_text(
                    ctx.config.settle_budget.nanos,
                ),
                at,
            ),
        )
    } else {
        match tape::spec_pause_between(tape, at, attempt) {
            Err(halt) => Err(halt),
            Ok((_, at)) => match spec_group_heartbeat(
                tape,
                at,
                conn,
                version,
                group,
                member_id,
                epoch,
                if attempt == 0 { Some(topic) } else { None },
                ctx::spec_correlation(base, attempt),
            ) {
                Err(halt) => Err(halt),
                Ok((answer, at)) => if !answer.error.ok() {
                    Err(
                        tape::spec_fail(
                            "heartbeat at epoch "@ + text::dec(epoch as int) + " answered "@
                                + answer.error.shown@,
                            at,
                        ),
                    )
                } else if spec_assigned(answer).len() > 0 {
                    Ok((answer, at))
                } else {
                    spec_settle_assignment(
                        ctx,
                        tape,
                        at,
                        conn,
                        version,
                        group,
                        member_id,
                        topic,
                        base,
                        attempt + 1,
                        answer.member_epoch,
                    )
                },
            },
        }
    }
}

pub fn settle_assignment<'a>(
    ctx: &ServerCtx,
    tape: &'a Vec<Event>,
    at: usize,
    conn: usize,
    version: i16,
    group: &str,
    member_id: &str,
    topic: &String,
    base: i32,
) -> (r: Flow<&'a ConsumerGroupAnswer>)
    ensures
        tape::read(r) == spec_settle_assignment(
            *ctx,
            tape@,
            at as int,
            conn,
            version,
            group@,
            member_id@,
            topic@,
            base,
            0,
            0,
        ),
{
    let attempts: u32 = ctx.config.settle_attempts();
    let mut epoch: i32 = 0;
    let mut here: usize = at;
    let mut attempt: u32 = 0;
    while attempt < attempts
        invariant
            attempt <= attempts,
            attempts == ctx.config.spec_settle_attempts(),
            spec_settle_assignment(
                *ctx,
                tape@,
                at as int,
                conn,
                version,
                group@,
                member_id@,
                topic@,
                base,
                0,
                0,
            ) == spec_settle_assignment(
                *ctx,
                tape@,
                here as int,
                conn,
                version,
                group@,
                member_id@,
                topic@,
                base,
                attempt as int,
                epoch,
            ),
        decreases attempts - attempt,
    {
        let (_, next) = pause_between(tape, here, attempt)?;
        let subscribed = if attempt == 0 { Some(topic) } else { None };
        let (answer, next) = consumer_group_heartbeat(
            tape,
            next,
            conn,
            version,
            group,
            member_id,
            epoch,
            subscribed,
            correlation(base, attempt),
        )?;
        if !answer.error.is_ok() {
            return Err(
                fail(
                    line("heartbeat at epoch ").num(epoch as i64).lit(" answered ").lit(
                        answer.error.shown.as_str(),
                    ).done(),
                    next,
                ),
            );
        }
        let assigned = match &answer.assignment {
            Some(topics) => topics.len() > 0,
            None => false,
        };
        if assigned {
            return Ok((answer, next));
        }
        epoch = answer.member_epoch;
        here = next;
        attempt = attempt + 1;
    }
    Err(
        fail(
            line("no assignment for a subscribed topic after ").wait(
                ctx.config.settle_budget.nanos,
            ).done(),
            here,
        ),
    )
}

} // verus!

//! Checks on coordinators, committed offsets and group membership.

use vstd::prelude::*;
use vstd::string::*;

use crate::checks::asks;
use crate::checks::ctx;
use crate::checks::ctx::ServerCtx;
use crate::checks::find;
use crate::checks::flows;
use crate::checks::flows::{Addressing, ProducedTopic, ProducedView};
use crate::checks::group_flows;
use crate::checks::tape;
use crate::checks::tape::{
    copy_bytes, doing, doing_ref, fail, skip, ActionOf, ErrorView, Event, Flow, FlowView, Halt,
    HaltView, Label,
};
use crate::text;
use crate::text::{line, same_bytes, same_text};
use crate::wire;
use crate::wire::{
    AssignedTopic, CommitTopic, ConsumerGroupAnswer, DescribedRow, ErrorCode,
    FindCoordinatorAnswer, JoinGroupAnswer, RequestOf, SyncGroupAnswer, CONSUMER_GROUP_HEARTBEAT,
    DESCRIBE_GROUPS, FIND_COORDINATOR, FIND_COORDINATOR_BATCHED,
    HEARTBEAT, JOIN_GROUP, JOIN_GROUP_MEMBER_ID_REQUIRED, LEAVE_GROUP, OFFSETS_BY_TOPIC_ID,
    OFFSET_COMMIT, OFFSET_FETCH, SYNC_GROUP, UNSET_OFFSET,
};
use crate::{Verdict, VerdictView};

verus! {

/// The endpoint of an answer in one of its two shapes: the error, the key it
/// answers for where it says, the host and the port.
pub open spec fn spec_judge_endpoint(
    error: ErrorCode,
    key: Option<Seq<char>>,
    host: Seq<char>,
    port: i32,
    group: Seq<char>,
) -> VerdictView {
    if !error.ok() {
        VerdictView::Fail(
            "no coordinator for group "@ + text::quoted(group) + ": "@ + error.shown@,
        )
    } else if key is Some && key->Some_0 != group {
        VerdictView::Fail(
            "asked about group "@ + text::quoted(group) + ", response answers for "@
                + text::quoted(key->Some_0),
        )
    } else if !find::reachable(host, port) {
        VerdictView::Fail(
            "coordinator endpoint is implausible: "@ + text::quoted(host) + ":"@ + text::dec(
                port as int,
            ),
        )
    } else {
        VerdictView::Pass
    }
}

fn judge_endpoint(
    error: &ErrorCode,
    key: Option<&String>,
    host: &String,
    port: i32,
    group: &str,
) -> (r: Verdict)
    ensures
        r@ == spec_judge_endpoint(
            *error,
            (match key {
                Some(k) => Some(k@),
                None => None,
            }),
            host@,
            port,
            group@,
        ),
{
    if !error.is_ok() {
        return Verdict::Fail {
            details: line("no coordinator for group ").quote(group).lit(": ").lit(
                error.shown.as_str(),
            ).done(),
        };
    }
    if let Some(key) = key {
        if !same_text(key.as_str(), group) {
            return Verdict::Fail {
                details: line("asked about group ").quote(group).lit(
                    ", response answers for ",
                ).quote(key.as_str()).done(),
            };
        }
    }
    if !find::is_reachable(host, port) {
        return Verdict::Fail {
            details: line("coordinator endpoint is implausible: ").quote(host.as_str()).lit(
                ":",
            ).num(port as i64).done(),
        };
    }
    Verdict::Pass
}

/// A settled FindCoordinator answer, in the shape its version has.
pub open spec fn spec_judge_coordinator(
    answer: FindCoordinatorAnswer,
    version: i16,
    group: Seq<char>,
) -> VerdictView {
    if version >= FIND_COORDINATOR_BATCHED {
        if answer.coordinators@.len() != 1 {
            VerdictView::Fail(
                "asked about 1 coordinator key, response carries "@ + text::dec(
                    answer.coordinators@.len() as int,
                ),
            )
        } else {
            let row = answer.coordinators@[0];
            spec_judge_endpoint(row.error, Some(row.key@), row.host@, row.port, group)
        }
    } else {
        spec_judge_endpoint(answer.error, None, answer.host@, answer.port, group)
    }
}

pub fn judge_coordinator(answer: &FindCoordinatorAnswer, version: i16, group: &str) -> (r: Verdict)
    ensures
        r@ == spec_judge_coordinator(*answer, version, group@),
{
    if version >= FIND_COORDINATOR_BATCHED {
        if answer.coordinators.len() != 1 {
            return Verdict::Fail {
                details: line("asked about 1 coordinator key, response carries ").count(
                    answer.coordinators.len() as u128,
                ).done(),
            };
        }
        let row = &answer.coordinators[0];
        judge_endpoint(&row.error, Some(&row.key), &row.host, row.port, group)
    } else {
        judge_endpoint(&answer.error, None, &answer.host, answer.port, group)
    }
}

/// What a settling answer's error is written as.
pub open spec fn spec_settling_text(answer: FindCoordinatorAnswer, version: i16) -> Seq<char> {
    match find::spec_coordinator_error(answer, version) {
        Some(code) => code.shown@,
        None => ""@,
    }
}

fn settling_text(answer: &FindCoordinatorAnswer, version: i16) -> (r: String)
    ensures
        r@ == spec_settling_text(*answer, version),
{
    match find::coordinator_error(answer, version) {
        Some(code) => code.shown.clone(),
        None => String::from_str(""),
    }
}

/// Asking for the coordinator at one version, from the given attempt on.
pub open spec fn spec_coordinator_wait(
    ctx: ServerCtx,
    tape: Seq<Event>,
    at: int,
    conn: usize,
    version: i16,
    group: Seq<char>,
    base: i32,
    attempt: int,
    last: Seq<char>,
) -> FlowView<VerdictView>
    decreases ctx.config.spec_settle_attempts() - attempt,
{
    if attempt >= ctx.config.spec_settle_attempts() {
        Err(
            tape::spec_fail(
                "coordinator for "@ + text::quoted(group) + " still "@ + last + " after "@
                    + text::duration_text(ctx.config.settle_budget.nanos),
                at,
            ),
        )
    } else {
        match tape::spec_pause_between(tape, at, attempt) {
            Err(halt) => Err(halt),
            Ok((_, at)) => match asks::spec_ask_find_coordinator(
                tape,
                at,
                Label::Final("FindCoordinator"@),
                ActionOf::Call {
                    conn,
                    version,
                    correlation: ctx::spec_correlation(base, attempt),
                    request: RequestOf::FindCoordinator {
                        key_type: 0,
                        key: group,
                        batched: version >= FIND_COORDINATOR_BATCHED,
                    },
                },
            ) {
                Err(halt) => Err(halt),
                Ok((answer, at)) => if !find::coordinator_settling(answer, version) {
                    Ok((spec_judge_coordinator(answer, version, group), at))
                } else {
                    spec_coordinator_wait(
                        ctx,
                        tape,
                        at,
                        conn,
                        version,
                        group,
                        base,
                        attempt + 1,
                        spec_settling_text(answer, version),
                    )
                },
            },
        }
    }
}

/// Asks until the cluster has a coordinator to name, then judges the answer.
/// A cluster that has never hosted a group makes the offsets topic on the
/// first ask, and says so until it has leaders.
fn coordinator_wait(
    ctx: &ServerCtx,
    tape: &Vec<Event>,
    at: usize,
    conn: usize,
    version: i16,
    group: &String,
    base: i32,
) -> (r: Flow<Verdict>)
    ensures
        tape::ran(r) == spec_coordinator_wait(
            *ctx,
            tape@,
            at as int,
            conn,
            version,
            group@,
            base,
            0,
            ""@,
        ),
{
    let bound: u32 = ctx.config.settle_attempts();
    let mut last: String = String::from_str("");
    let mut here: usize = at;
    let mut attempt: u32 = 0;
    while attempt < bound
        invariant
            attempt <= bound,
            bound == ctx.config.spec_settle_attempts(),
            spec_coordinator_wait(*ctx, tape@, at as int, conn, version, group@, base, 0, ""@) == spec_coordinator_wait(
                *ctx,
                tape@,
                here as int,
                conn,
                version,
                group@,
                base,
                attempt as int,
                last@,
            ),
        decreases bound - attempt,
    {
        let (_, next) = tape::pause_between(tape, here, attempt)?;
        let (answer, next) = asks::ask_find_coordinator(
            tape,
            next,
            Label::Final("FindCoordinator"),
            ActionOf::Call {
                conn,
                version,
                correlation: ctx::correlation(base, attempt),
                request: RequestOf::FindCoordinator {
                    key_type: 0,
                    key: group.clone(),
                    batched: version >= FIND_COORDINATOR_BATCHED,
                },
            },
        )?;
        if !find::still_settling(answer, version) {
            return Ok((judge_coordinator(answer, version, group.as_str()), next));
        }
        last = settling_text(answer, version);
        here = next;
        attempt = attempt + 1;
    }
    Err(
        fail(
            line("coordinator for ").quote(group.as_str()).lit(" still ").lit(last.as_str())
                .lit(" after ").wait(ctx.config.settle_budget.nanos).done(),
            here,
        ),
    )
}

pub open spec fn spec_find_coordinator_at(
    ctx: ServerCtx,
    tape: Seq<Event>,
    at: int,
    version: i16,
    group: Seq<char>,
    base: i32,
) -> FlowView<VerdictView> {
    match tape::spec_connect(tape, at, ctx.addr@) {
        Err(halt) => Err(halt),
        Ok((conn, at)) => spec_coordinator_wait(ctx, tape, at, conn, version, group, base, 0, ""@),
    }
}

/// One FindCoordinator exchange at `version`, checked.
fn find_coordinator_at(
    ctx: &ServerCtx,
    tape: &Vec<Event>,
    at: usize,
    version: i16,
    group: &String,
    base: i32,
) -> (r: Flow<Verdict>)
    ensures
        tape::ran(r) == spec_find_coordinator_at(*ctx, tape@, at as int, version, group@, base),
{
    let (conn, at) = tape::connect(tape, at, ctx.addr.as_str())?;
    coordinator_wait(ctx, tape, at, conn, version, group, base)
}

/// The FindCoordinator sweep from the `i`th version on.
pub open spec fn spec_coordinator_sweep(
    ctx: ServerCtx,
    tape: Seq<Event>,
    at: int,
    group: Seq<char>,
    versions: Seq<i16>,
    i: int,
) -> FlowView<VerdictView>
    decreases versions.len() - i,
{
    if i >= versions.len() {
        Ok((VerdictView::Pass, at))
    } else {
        let version = versions[i];
        match tape::spec_settle(
            spec_find_coordinator_at(
                ctx,
                tape,
                at,
                version,
                group,
                ctx::spec_correlation(51, 32 * i),
            ),
        ) {
            Err(halt) => Err(halt),
            Ok((outcome, at)) => if outcome is Fail || outcome is Error {
                Err(HaltView::Stop(ctx::spec_at_version(outcome, version), at))
            } else {
                spec_coordinator_sweep(ctx, tape, at, group, versions, i + 1)
            },
        }
    }
}

/// Asks at every version. A failure ends the sweep, and so does a version that
/// could not be asked about: what could not run never passes.
fn coordinator_sweep(
    ctx: &ServerCtx,
    tape: &Vec<Event>,
    at: usize,
    group: &String,
    versions: &Vec<i16>,
) -> (r: Flow<Verdict>)
    requires
        versions@.len() <= 65536,
    ensures
        tape::ran(r) == spec_coordinator_sweep(*ctx, tape@, at as int, group@, versions@, 0),
{
    let bound: usize = versions.len();
    let mut here: usize = at;
    let mut i: usize = 0;
    while i < bound
        invariant
            i <= bound,
            bound == versions@.len(),
            versions@.len() <= 65536,
            spec_coordinator_sweep(*ctx, tape@, at as int, group@, versions@, 0) == spec_coordinator_sweep(
                *ctx,
                tape@,
                here as int,
                group@,
                versions@,
                i as int,
            ),
        decreases bound - i,
    {
        let version: i16 = versions[i];
        let (outcome, next) = tape::settle(
            find_coordinator_at(
                ctx,
                tape,
                here,
                version,
                group,
                ctx::correlation(51, 32 * i as u32),
            ),
        )?;
        match outcome {
            Verdict::Fail { .. } | Verdict::Error { .. } => {
                return Err(Halt::Stop(outcome.at_version(version), next));
            },
            _ => {
                here = next;
                i = i + 1;
            },
        }
    }
    Ok((Verdict::Pass, here))
}

pub open spec fn spec_find_coordinator_group(
    ctx: ServerCtx,
    tape: Seq<Event>,
) -> FlowView<VerdictView> {
    match ctx.spec_versions(
        0,
        "FindCoordinator"@,
        FIND_COORDINATOR,
        ctx.schema.find_coordinator.min,
        ctx.schema.find_coordinator.max,
    ) {
        Err(halt) => Err(halt),
        Ok(versions) => {
            let group = ctx.spec_check_group("find-coordinator"@);
            spec_coordinator_sweep(ctx, tape, 0, group, versions, 0)
        },
    }
}

/// Names the coordinator of a group and, where it answers for several keys,
/// which of them.
pub fn find_coordinator_group(ctx: &ServerCtx, tape: &Vec<Event>) -> (r: Flow<Verdict>)
    ensures
        tape::ran(r) == spec_find_coordinator_group(*ctx, tape@),
{
    let versions: Vec<i16> = ctx.versions(
        0,
        "FindCoordinator",
        FIND_COORDINATOR,
        ctx.schema.find_coordinator.min,
        ctx.schema.find_coordinator.max,
    )?;
    let group = ctx.check_group("find-coordinator");
    coordinator_sweep(ctx, tape, 0, &group, &versions)
}

/// The offset the round trip commits: not 0, and not the log end either.
pub const COMMITTED: i64 = 7;

/// From the version that names topics only by id, a subject that handed none
/// out cannot be asked.
pub open spec fn spec_need_topic_id(produced: ProducedView, version: i16, at: int) -> FlowView<()> {
    if version >= OFFSETS_BY_TOPIC_ID && produced.topic_id@ == wire::zero_id() {
        Err(
            tape::spec_skip(
                "offsets v"@ + text::dec(version as int)
                    + " addresses topics by id, and CreateTopics returned none for "@
                    + produced.topic,
                at,
            ),
        )
    } else {
        Ok(((), at))
    }
}

pub fn need_topic_id(produced: &ProducedTopic, version: i16, at: usize) -> (r: Flow<()>)
    ensures
        tape::ran(r) == spec_need_topic_id(produced@, version, at as int),
{
    if version >= OFFSETS_BY_TOPIC_ID && wire::is_zero_id(&produced.topic_id) {
        Err(
            skip(
                line("offsets v").num(version as i64).lit(
                    " addresses topics by id, and CreateTopics returned none for ",
                ).lit(produced.topic.as_str()).done(),
                at,
            ),
        )
    } else {
        Ok(((), at))
    }
}

/// The versions of both halves of the offsets pair, since either can be
/// absent.
pub open spec fn spec_offsets_versions(ctx: ServerCtx, at: int) -> Result<(i16, i16), HaltView> {
    match ctx.spec_version(
        at,
        "OffsetCommit"@,
        OFFSET_COMMIT,
        ctx.schema.offset_commit.min,
        ctx.schema.offset_commit.max,
    ) {
        Err(halt) => Err(halt),
        Ok(commit) => match ctx.spec_version(
            at,
            "OffsetFetch"@,
            OFFSET_FETCH,
            ctx.schema.offset_fetch.min,
            ctx.schema.offset_fetch.max,
        ) {
            Err(halt) => Err(halt),
            Ok(fetch) => Ok((commit, fetch)),
        },
    }
}

pub fn offsets_versions(ctx: &ServerCtx, at: usize) -> (r: Result<(i16, i16), Halt>)
    ensures
        tape::held(r) == spec_offsets_versions(*ctx, at as int),
{
    let commit: i16 = ctx.version(
        at,
        "OffsetCommit",
        OFFSET_COMMIT,
        ctx.schema.offset_commit.min,
        ctx.schema.offset_commit.max,
    )?;
    let fetch: i16 = ctx.version(
        at,
        "OffsetFetch",
        OFFSET_FETCH,
        ctx.schema.offset_fetch.min,
        ctx.schema.offset_fetch.max,
    )?;
    Ok((commit, fetch))
}

/// JoinGroup and SyncGroup versions, since either can be absent.
pub open spec fn spec_group_versions(ctx: ServerCtx, at: int) -> Result<(i16, i16), HaltView> {
    match ctx.spec_version(
        at,
        "JoinGroup"@,
        JOIN_GROUP,
        ctx.schema.join_group.min,
        ctx.schema.join_group.max,
    ) {
        Err(halt) => Err(halt),
        Ok(join) => match ctx.spec_version(
            at,
            "SyncGroup"@,
            SYNC_GROUP,
            ctx.schema.sync_group.min,
            ctx.schema.sync_group.max,
        ) {
            Err(halt) => Err(halt),
            Ok(sync) => Ok((join, sync)),
        },
    }
}

pub fn group_versions(ctx: &ServerCtx, at: usize) -> (r: Result<(i16, i16), Halt>)
    ensures
        tape::held(r) == spec_group_versions(*ctx, at as int),
{
    let join: i16 = ctx.version(
        at,
        "JoinGroup",
        JOIN_GROUP,
        ctx.schema.join_group.min,
        ctx.schema.join_group.max,
    )?;
    let sync: i16 = ctx.version(
        at,
        "SyncGroup",
        SYNC_GROUP,
        ctx.schema.sync_group.min,
        ctx.schema.sync_group.max,
    )?;
    Ok((join, sync))
}

/// The offset that was read back of the committed one.
pub open spec fn spec_judge_read_back(version: i16, got: i64) -> VerdictView {
    if got != COMMITTED {
        VerdictView::Fail(
            "v"@ + text::dec(version as int) + ": committed offset "@ + text::dec(
                COMMITTED as int,
            ) + ", read back "@ + text::dec(got as int),
        )
    } else {
        VerdictView::Pass
    }
}

/// Reading the committed offset back at the versions from the `i`th on,
/// leaving out those that need a topic id the subject did not hand out.
pub open spec fn spec_read_back_sweep(
    tape: Seq<Event>,
    at: int,
    conn: usize,
    group: Seq<char>,
    produced: ProducedView,
    versions: Seq<i16>,
    i: int,
) -> FlowView<VerdictView>
    decreases versions.len() - i,
{
    if i >= versions.len() {
        Ok((VerdictView::Pass, at))
    } else {
        let version = versions[i];
        if version >= OFFSETS_BY_TOPIC_ID && produced.topic_id@ == wire::zero_id() {
            spec_read_back_sweep(tape, at, conn, group, produced, versions, i + 1)
        } else {
            match group_flows::spec_fetch_committed(
                tape,
                at,
                conn,
                version,
                group,
                produced.topic,
                produced.topic_id,
                ctx::spec_correlation(62, i),
            ) {
                Err(halt) => Err(ctx::spec_halt_at_version(halt, version)),
                Ok((got, at)) => if !(spec_judge_read_back(version, got) is Pass) {
                    Err(HaltView::Stop(spec_judge_read_back(version, got), at))
                } else {
                    spec_read_back_sweep(tape, at, conn, group, produced, versions, i + 1)
                },
            }
        }
    }
}

/// Reads the committed offset back at every version that can be asked.
fn read_back_sweep(
    tape: &Vec<Event>,
    at: usize,
    conn: usize,
    group: &str,
    produced: &ProducedTopic,
    versions: &Vec<i16>,
) -> (r: Flow<Verdict>)
    requires
        versions@.len() <= 65536,
    ensures
        tape::ran(r) == spec_read_back_sweep(
            tape@,
            at as int,
            conn,
            group@,
            produced@,
            versions@,
            0,
        ),
{
    let bound: usize = versions.len();
    let mut here: usize = at;
    let mut i: usize = 0;
    while i < bound
        invariant
            i <= bound,
            bound == versions@.len(),
            versions@.len() <= 65536,
            spec_read_back_sweep(tape@, at as int, conn, group@, produced@, versions@, 0) == spec_read_back_sweep(
                tape@,
                here as int,
                conn,
                group@,
                produced@,
                versions@,
                i as int,
            ),
        decreases bound - i,
    {
        let version: i16 = versions[i];
        if version >= OFFSETS_BY_TOPIC_ID && wire::is_zero_id(&produced.topic_id) {
            i = i + 1;
            continue;
        }
        let (got, next) = match group_flows::fetch_committed(
            tape,
            here,
            conn,
            version,
            group,
            produced.topic.as_str(),
            produced.topic_id,
            ctx::correlation(62, i as u32),
        ) {
            Ok(done) => done,
            Err(halt) => return Err(ctx::halt_at_version(halt, version)),
        };
        if got != COMMITTED {
            return Err(
                fail(
                    line("v").num(version as i64).lit(": committed offset ").num(COMMITTED)
                        .lit(", read back ").num(got).done(),
                    next,
                ),
            );
        }
        here = next;
        i = i + 1;
    }
    Ok((Verdict::Pass, here))
}

pub open spec fn spec_offsets_commit_fetch_roundtrip(
    ctx: ServerCtx,
    tape: Seq<Event>,
) -> FlowView<VerdictView> {
    match ctx.spec_version(
        0,
        "OffsetCommit"@,
        OFFSET_COMMIT,
        ctx.schema.offset_commit.min,
        ctx.schema.offset_commit.max,
    ) {
        Err(halt) => Err(halt),
        Ok(commit_version) => match ctx.spec_versions(
            0,
            "OffsetFetch"@,
            OFFSET_FETCH,
            ctx.schema.offset_fetch.min,
            ctx.schema.offset_fetch.max,
        ) {
            Err(halt) => Err(halt),
            Ok(versions) => match flows::spec_produce_flow(
                ctx,
                tape,
                0,
                "offsets"@,
                Addressing::Name,
            ) {
                Err(halt) => Err(halt),
                Ok((produced, at)) => match spec_need_topic_id(produced, commit_version, at) {
                    Err(halt) => Err(halt),
                    Ok((_, at)) => {
                        let group = ctx.spec_check_group(produced.topic);
                        match group_flows::spec_commit_settled(
                            ctx,
                            tape,
                            at,
                            group,
                            produced,
                            COMMITTED,
                            commit_version,
                            55,
                            0,
                            ErrorView::Infra("no commit attempts were made"@),
                        ) {
                            Err(halt) => Err(halt),
                            Ok((conn, at)) => {
                                spec_read_back_sweep(tape, at, conn, group, produced, versions, 0)
                            },
                        }
                    },
                },
            },
        },
    }
}

/// Returns the offset it accepted, whichever version reads it: a server that
/// accepts commits and loses them answers every commit with success.
pub fn offsets_commit_fetch_roundtrip(ctx: &ServerCtx, tape: &Vec<Event>) -> (r: Flow<Verdict>)
    ensures
        tape::ran(r) == spec_offsets_commit_fetch_roundtrip(*ctx, tape@),
{
    let commit_version: i16 = ctx.version(
        0,
        "OffsetCommit",
        OFFSET_COMMIT,
        ctx.schema.offset_commit.min,
        ctx.schema.offset_commit.max,
    )?;
    let versions: Vec<i16> = ctx.versions(
        0,
        "OffsetFetch",
        OFFSET_FETCH,
        ctx.schema.offset_fetch.min,
        ctx.schema.offset_fetch.max,
    )?;
    let (produced, at) = flows::produce_flow(ctx, tape, 0, "offsets", Addressing::Name)?;
    let (_, at) = need_topic_id(&produced, commit_version, at)?;
    let group = ctx.check_group(produced.topic.as_str());
    let (conn, at) = group_flows::commit_offset_settled(
        ctx,
        tape,
        at,
        group.as_str(),
        &produced,
        COMMITTED,
        commit_version,
        55,
    )?;
    read_back_sweep(tape, at, conn, group.as_str(), &produced, &versions)
}

/// The offset of a group that never committed.
pub open spec fn spec_judge_unset(got: i64) -> VerdictView {
    if got != UNSET_OFFSET {
        VerdictView::Fail(
            "a group that never committed reads as offset "@ + text::dec(got as int)
                + ", expected "@ + text::dec(UNSET_OFFSET as int),
        )
    } else {
        VerdictView::Pass
    }
}

pub open spec fn spec_offsets_unset_is_sentinel(
    ctx: ServerCtx,
    tape: Seq<Event>,
) -> FlowView<VerdictView> {
    match spec_offsets_versions(ctx, 0) {
        Err(halt) => Err(halt),
        Ok(versions) => {
            let fetch_version = versions.1;
            match flows::spec_produce_flow(
                ctx,
                tape,
                0,
                "unset"@,
                Addressing::Name,
            ) {
                Err(halt) => Err(halt),
                Ok((produced, at)) => match spec_need_topic_id(produced, fetch_version, at) {
                    Err(halt) => Err(halt),
                    Ok((_, at)) => {
                        let base = ctx.spec_check_group(produced.topic);
                        let group = base + "-never-committed"@;
                        match group_flows::spec_coordinator_conn(
                            ctx,
                            tape,
                            at,
                            group,
                        ) {
                            Err(halt) => Err(halt),
                            Ok((conn, at)) => match group_flows::spec_await_topic_known(
                                ctx,
                                tape,
                                at,
                                conn,
                                produced.topic,
                                66,
                            ) {
                                Err(halt) => Err(halt),
                                Ok((_, at)) => match group_flows::spec_fetch_committed(
                                    tape,
                                    at,
                                    conn,
                                    fetch_version,
                                    group,
                                    produced.topic,
                                    produced.topic_id,
                                    71,
                                ) {
                                    Err(halt) => Err(halt),
                                    Ok((got, at)) => tape::spec_rule(spec_judge_unset(got), at),
                                },
                            },
                        }
                    },
                },
            }
        },
    }
}

/// Reports a partition a group never committed as -1: 0 is a valid offset,
/// and would send a resuming consumer to the start of the log.
pub fn offsets_unset_is_sentinel(ctx: &ServerCtx, tape: &Vec<Event>) -> (r: Flow<Verdict>)
    ensures
        tape::ran(r) == spec_offsets_unset_is_sentinel(*ctx, tape@),
{
    let versions: (i16,i16) = offsets_versions(ctx, 0)?;
    let fetch_version: i16 = versions.1;
    let (produced, at) = flows::produce_flow(ctx, tape, 0, "unset", Addressing::Name)?;
    let (_, at) = need_topic_id(&produced, fetch_version, at)?;
    let base = ctx.check_group(produced.topic.as_str());
    let group = line(base.as_str()).lit("-never-committed").done();
    let (conn, at) = group_flows::coordinator_conn(ctx, tape, at, group.as_str())?;
    let (_, at) = group_flows::await_topic_known(ctx, tape, at, conn, produced.topic.as_str(), 66)?;
    let (got, at) = group_flows::fetch_committed(
        tape,
        at,
        conn,
        fetch_version,
        group.as_str(),
        produced.topic.as_str(),
        produced.topic_id,
        71,
    )?;
    if got != UNSET_OFFSET {
        return Err(
            fail(
                line("a group that never committed reads as offset ").num(got).lit(", expected ")
                    .num(UNSET_OFFSET).done(),
                at,
            ),
        );
    }
    Ok((Verdict::Pass, at))
}

/// Metadata shaped to catch the ways a string gets mangled in transit:
/// something outside ASCII, a quote, and length enough to notice a
/// truncation.
pub open spec fn spec_probe_metadata() -> Seq<char> {
    "odradek:\u{e9}\"state\"/shard-7"@
}

fn probe_metadata() -> (r: &'static str)
    ensures
        r@ == spec_probe_metadata(),
{
    "odradek:\u{e9}\"state\"/shard-7"
}

/// The code of the first partition of the first topic of a commit.
pub open spec fn spec_commit_code(topics: Seq<CommitTopic>) -> Option<ErrorCode> {
    match find::head(topics) {
        None => None,
        Some(topic) => find::head(topic.partitions@),
    }
}

fn commit_code(topics: &Vec<CommitTopic>) -> (r: Option<&ErrorCode>)
    ensures
        find::found(r) == spec_commit_code(topics@),
{
    match find::first(topics) {
        None => None,
        Some(topic) => find::first(&topic.partitions),
    }
}

/// What is made of the metadata that came back.
pub open spec fn spec_judge_metadata(got: Option<Seq<char>>) -> VerdictView {
    match got {
        Some(text) => if text == spec_probe_metadata() {
            VerdictView::Pass
        } else {
            VerdictView::Fail(
                "committed metadata "@ + text::quoted(spec_probe_metadata()) + " came back as "@
                    + text::quoted(text)
                    + "; the string is the client's and nothing in the round trip should touch it"@,
            )
        },
        None => VerdictView::Fail(
            "committed metadata "@ + text::quoted(spec_probe_metadata())
                + " came back absent, while the offset beside it came back fine — so nothing about the read looks wrong"@,
        ),
    }
}

pub fn judge_metadata(got: &Option<String>) -> (r: Verdict)
    ensures
        r@ == spec_judge_metadata(wire::opt_view(*got)),
{
    match got {
        Some(text) => if same_text(text.as_str(), probe_metadata()) {
            Verdict::Pass
        } else {
            Verdict::Fail {
                details: line("committed metadata ").quote(probe_metadata()).lit(
                    " came back as ",
                ).quote(text.as_str()).lit(
                    "; the string is the client's and nothing in the round trip should touch it",
                ).done(),
            }
        },
        None => Verdict::Fail {
            details: line("committed metadata ").quote(probe_metadata()).lit(
                " came back absent, while the offset beside it came back fine — so nothing about the read looks wrong",
            ).done(),
        },
    }
}

pub open spec fn spec_offsets_metadata_round_trips(
    ctx: ServerCtx,
    tape: Seq<Event>,
) -> FlowView<VerdictView> {
    match spec_offsets_versions(ctx, 0) {
        Err(halt) => Err(halt),
        Ok(versions) => {
            let commit_version = versions.0;
            let fetch_version = versions.1;
            match flows::spec_produce_flow(
                ctx,
                tape,
                0,
                "commitmeta"@,
                Addressing::Name,
            ) {
                Err(halt) => Err(halt),
                Ok((produced, at)) => match spec_need_topic_id(produced, commit_version, at) {
                    Err(halt) => Err(halt),
                    Ok((_, at)) => {
                        let group = ctx.spec_check_group("commitmeta"@);
                        match group_flows::spec_coordinator_conn(
                            ctx,
                            tape,
                            at,
                            group,
                        ) {
                            Err(halt) => Err(halt),
                            Ok((conn, at)) => match group_flows::spec_await_topic_known(
                                ctx,
                                tape,
                                at,
                                conn,
                                produced.topic,
                                815,
                            ) {
                                Err(halt) => Err(halt),
                                Ok((_, at)) => match tape::spec_doing(
                                    asks::spec_ask_offset_commit(
                                        tape,
                                        at,
                                        Label::Final("OffsetCommit"@),
                                        ActionOf::Call {
                                            conn,
                                            version: commit_version,
                                            correlation: 820,
                                            request: RequestOf::OffsetCommit {
                                                group: group,
                                                topic: group_flows::spec_offsets_topic(
                                                    commit_version,
                                                    produced.topic,
                                                    produced.topic_id,
                                                ),
                                                offset: 11,
                                                metadata: Some("odradek:\u{e9}\"state\"/shard-7"@),
                                            },
                                        },
                                    ),
                                    "OffsetCommit"@,
                                ) {
                                    Err(halt) => Err(halt),
                                    Ok((topics, at)) => match spec_commit_code(topics@) {
                                        Some(code) => if !code.ok() {
                                                Err(
                                                    tape::spec_fail(
                                                        "committing an offset with metadata answered "@
                                                            + code.shown@,
                                                        at,
                                                    ),
                                                )
                                            } else {
                                                match tape::spec_doing(
                                                    group_flows::spec_fetch_committed_metadata(
                                                        tape,
                                                        at,
                                                        conn,
                                                        fetch_version,
                                                        group,
                                                        produced.topic,
                                                        produced.topic_id,
                                                        830,
                                                    ),
                                                    "OffsetFetch"@,
                                                ) {
                                                    Err(halt) => Err(halt),
                                                    Ok((got, at)) => {
                                                        Ok((spec_judge_metadata(got), at))
                                                    },
                                                }
                                            },
                                        None => match tape::spec_doing(
                                                group_flows::spec_fetch_committed_metadata(
                                                    tape,
                                                    at,
                                                    conn,
                                                    fetch_version,
                                                    group,
                                                    produced.topic,
                                                    produced.topic_id,
                                                    830,
                                                ),
                                                "OffsetFetch"@,
                                            ) {
                                                Err(halt) => Err(halt),
                                                Ok((got, at)) => Ok((spec_judge_metadata(got), at)),
                                            },
                                    },
                                },
                            },
                        }
                    },
                },
            }
        },
    }
}

/// Returns commit metadata exactly as it was given.
pub fn offsets_metadata_round_trips(ctx: &ServerCtx, tape: &Vec<Event>) -> (r: Flow<Verdict>)
    ensures
        tape::ran(r) == spec_offsets_metadata_round_trips(*ctx, tape@),
{
    let versions: (i16,i16) = offsets_versions(ctx, 0)?;
    let commit_version: i16 = versions.0;
    let fetch_version: i16 = versions.1;
    let (produced, at) = flows::produce_flow(ctx, tape, 0, "commitmeta", Addressing::Name)?;
    let (_, at) = need_topic_id(&produced, commit_version, at)?;
    let group = ctx.check_group("commitmeta");
    let (conn, at) = group_flows::coordinator_conn(ctx, tape, at, group.as_str())?;
    let (_, at) = group_flows::await_topic_known(ctx, tape, at, conn, produced.topic.as_str(), 815)?;
    let (topics, at) = doing_ref(
        asks::ask_offset_commit(
            tape,
            at,
            Label::Final("OffsetCommit"),
            ActionOf::Call {
                conn,
                version: commit_version,
                correlation: 820,
                request: RequestOf::OffsetCommit {
                    group: group.clone(),
                    topic: group_flows::offsets_topic(
                        commit_version,
                        produced.topic.as_str(),
                        produced.topic_id,
                    ),
                    offset: 11,
                    metadata: Some(String::from_str("odradek:\u{e9}\"state\"/shard-7")),
                },
            },
        ),
        "OffsetCommit",
    )?;
    match commit_code(topics) {
        Some(code) => {
            if !code.is_ok() {
                return Err(
                    fail(
                        line("committing an offset with metadata answered ")
                            .lit(code.shown.as_str()).done(),
                        at,
                    ),
                );
            }
            let (got, at) = doing(
                group_flows::fetch_committed_metadata(
                    tape,
                    at,
                    conn,
                    fetch_version,
                    group.as_str(),
                    produced.topic.as_str(),
                    produced.topic_id,
                    830,
                ),
                "OffsetFetch",
            )?;
            Ok((judge_metadata(&got.0), at))
        },
        None => {
            let (got, at) = doing(
                group_flows::fetch_committed_metadata(
                    tape,
                    at,
                    conn,
                    fetch_version,
                    group.as_str(),
                    produced.topic.as_str(),
                    produced.topic_id,
                    830,
                ),
                "OffsetFetch",
            )?;
            Ok((judge_metadata(&got.0), at))
        },
    }
}

/// The ConsumerGroupHeartbeat version these checks and the subject share.
pub open spec fn spec_consumer_group_version(ctx: ServerCtx, at: int) -> Result<i16, HaltView> {
    ctx.spec_version(
        at,
        "ConsumerGroupHeartbeat"@,
        CONSUMER_GROUP_HEARTBEAT,
        ctx.schema.consumer_group_heartbeat.min,
        ctx.schema.consumer_group_heartbeat.max,
    )
}

fn consumer_group_version(ctx: &ServerCtx, at: usize) -> (r: Result<i16, Halt>)
    ensures
        tape::held(r) == spec_consumer_group_version(*ctx, at as int),
{
    ctx.version(
        at,
        "ConsumerGroupHeartbeat",
        CONSUMER_GROUP_HEARTBEAT,
        ctx.schema.consumer_group_heartbeat.min,
        ctx.schema.consumer_group_heartbeat.max,
    )
}

/// Whether an answer names anyone.
pub open spec fn spec_names_someone(id: Option<String>) -> bool {
    match id {
        Some(id) => id@.len() > 0,
        None => false,
    }
}

fn names_someone(id: &Option<String>) -> (r: bool)
    ensures
        r == spec_names_someone(*id),
{
    match id {
        Some(id) => !id.as_str().is_empty(),
        None => false,
    }
}

/// What a member that introduces itself is told.
pub open spec fn spec_judge_admission(answer: ConsumerGroupAnswer) -> VerdictView {
    if !answer.error.ok() {
        VerdictView::Fail(
            "a member introducing itself at epoch 0 was answered "@ + answer.error.shown@,
        )
    } else if answer.member_epoch == 0 {
        VerdictView::Fail(
            "member was admitted at epoch 0, which is the epoch it arrived with: nothing distinguishes joining from being ignored"@,
        )
    } else if answer.heartbeat_interval_ms <= 0 {
        VerdictView::Fail(
            "heartbeat interval is "@ + text::dec(answer.heartbeat_interval_ms as int)
                + "ms, so a member has no pace to keep"@,
        )
    } else if !spec_names_someone(answer.member_id) {
        VerdictView::Fail("response carries no member id"@)
    } else {
        VerdictView::Pass
    }
}

pub open spec fn spec_consumer_group_epoch_advances(
    ctx: ServerCtx,
    tape: Seq<Event>,
) -> FlowView<VerdictView> {
    match spec_consumer_group_version(ctx, 0) {
        Err(halt) => Err(halt),
        Ok(version) => {
            let group = ctx.spec_check_group("epoch"@);
            match group_flows::spec_coordinator_conn(ctx, tape, 0, group) {
                Err(halt) => Err(halt),
                Ok((conn, at)) => {
                    let member_id = ctx.spec_member_id("epoch"@);
                    match ctx::spec_fresh_topic(ctx, tape, at, "cgnone"@) {
                        Err(halt) => Err(halt),
                        Ok((topic, at)) => match group_flows::spec_group_heartbeat(
                            tape,
                            at,
                            conn,
                            version,
                            group,
                            member_id,
                            0,
                            Some(topic),
                            150,
                        ) {
                            Err(halt) => Err(halt),
                            Ok((answer, at)) => if !(spec_judge_admission(answer) is Pass) {
                                Err(HaltView::Stop(spec_judge_admission(answer), at))
                            } else {
                                match group_flows::spec_leave_consumer_group(
                                    tape,
                                    at,
                                    conn,
                                    version,
                                    group,
                                    member_id,
                                    151,
                                ) {
                                    Err(halt) => Err(halt),
                                    Ok((_, at)) => Ok((VerdictView::Pass, at)),
                                }
                            },
                        },
                    }
                },
            }
        },
    }
}

/// Admits a member at a non-zero epoch: 0 is what the member said on the way
/// in, and nothing would tell joining from being ignored.
pub fn consumer_group_epoch_advances(ctx: &ServerCtx, tape: &Vec<Event>) -> (r: Flow<Verdict>)
    ensures
        tape::ran(r) == spec_consumer_group_epoch_advances(*ctx, tape@),
{
    let version: i16 = consumer_group_version(ctx, 0)?;
    let group = ctx.check_group("epoch");
    let (conn, at) = group_flows::coordinator_conn(ctx, tape, 0, group.as_str())?;
    let member_id = ctx.mint_member_id("epoch");
    let (topic, at) = ctx::fresh_topic(ctx, tape, at, "cgnone")?;
    let (answer, at) = group_flows::consumer_group_heartbeat(
        tape,
        at,
        conn,
        version,
        group.as_str(),
        member_id.as_str(),
        0,
        Some(&topic),
        150,
    )?;
    if !answer.error.is_ok() {
        return Err(
            fail(
                line("a member introducing itself at epoch 0 was answered ")
                    .lit(answer.error.shown.as_str()).done(),
                at,
            ),
        );
    }
    if answer.member_epoch == 0 {
        return Err(
            fail(
                String::from_str(
                    "member was admitted at epoch 0, which is the epoch it arrived with: nothing distinguishes joining from being ignored",
                ),
                at,
            ),
        );
    }
    if answer.heartbeat_interval_ms <= 0 {
        return Err(
            fail(
                line("heartbeat interval is ").num(answer.heartbeat_interval_ms as i64)
                    .lit("ms, so a member has no pace to keep").done(),
                at,
            ),
        );
    }
    if !names_someone(&answer.member_id) {
        return Err(fail(String::from_str("response carries no member id"), at));
    }
    let (_, at) = group_flows::leave_consumer_group(
        tape,
        at,
        conn,
        version,
        group.as_str(),
        member_id.as_str(),
        151,
    )?;
    Ok((Verdict::Pass, at))
}

/// What is made of an assignment for a one-partition topic.
pub open spec fn spec_judge_assigned(
    assigned: Seq<AssignedTopic>,
    produced: ProducedView,
) -> VerdictView {
    match find::first_where(assigned, find::assigns(produced.topic_id)) {
        Some(entry) => if entry.partitions@.contains(0) {
            VerdictView::Pass
        } else {
            VerdictView::Fail(
                "subscribed to a 1-partition topic; assignment names it with partitions "@
                    + text::int_list(text::ints_of_i32(entry.partitions@)),
            )
        },
        None => VerdictView::Fail(
            "subscribed to "@ + text::quoted(produced.topic) + " and was assigned "@ + text::dec(
                assigned.len() as int,
            ) + " topic(s), none of them that one"@,
        ),
    }
}

fn judge_assigned(assigned: &Vec<AssignedTopic>, produced: &ProducedTopic) -> (r: Verdict)
    ensures
        r@ == spec_judge_assigned(assigned@, produced@),
{
    match find::assigned_entry(assigned, &produced.topic_id) {
        Some(entry) => if find::has_i32(&entry.partitions, 0) {
            Verdict::Pass
        } else {
            Verdict::Fail {
                details: line(
                    "subscribed to a 1-partition topic; assignment names it with partitions ",
                ).nums(&entry.partitions).done(),
            }
        },
        None => Verdict::Fail {
            details: line("subscribed to ").quote(produced.topic.as_str()).lit(
                " and was assigned ",
            ).count(assigned.len() as u128).lit(" topic(s), none of them that one").done(),
        },
    }
}

/// What is made of the answer to a heartbeat that said nothing new. An
/// absent assignment means that nothing changed; one that is present and
/// empty is a revocation.
pub open spec fn spec_judge_quiet(
    assignment: Option<Vec<AssignedTopic>>,
    produced: ProducedView,
) -> VerdictView {
    match assignment {
        None => VerdictView::Pass,
        Some(topics) => if find::first_where(topics@, find::assigns(produced.topic_id)) is Some {
            VerdictView::Pass
        } else if topics@.len() == 0 {
            VerdictView::Fail(
                "a heartbeat that omitted subscribed_topic_names was answered with an empty assignment: the absent field was read as unsubscribing"@,
            )
        } else {
            VerdictView::Fail(
                "a heartbeat that stated nothing new was reassigned to "@ + text::dec(
                    topics@.len() as int,
                ) + " other topic(s)"@,
            )
        },
    }
}

fn judge_quiet(assignment: &Option<Vec<AssignedTopic>>, produced: &ProducedTopic) -> (r: Verdict)
    ensures
        r@ == spec_judge_quiet(*assignment, produced@),
{
    let topics = match assignment {
        None => return Verdict::Pass,
        Some(topics) => topics,
    };
    if let Some(_) = find::assigned_entry(topics, &produced.topic_id) {
        return Verdict::Pass;
    }
    if topics.len() == 0 {
        return Verdict::Fail {
            details: String::from_str(
                "a heartbeat that omitted subscribed_topic_names was answered with an empty assignment: the absent field was read as unsubscribing",
            ),
        };
    }
    Verdict::Fail {
        details: line("a heartbeat that stated nothing new was reassigned to ").count(
            topics.len() as u128,
        ).lit(" other topic(s)").done(),
    }
}

/// What is made of the assignment an answer carries, if any.
fn judge_answer_assigned(
    assignment: &Option<Vec<AssignedTopic>>,
    produced: &ProducedTopic,
) -> (r: Verdict)
    ensures
        r@ == spec_judge_assigned(
            (match *assignment {
                Some(topics) => topics@,
                None => Seq::empty(),
            }),
            produced@,
        ),
{
    match assignment {
        Some(topics) => judge_assigned(topics, produced),
        None => {
            let none: Vec<AssignedTopic> = Vec::new();
            assert(none@ =~= Seq::empty());
            judge_assigned(&none, produced)
        },
    }
}

pub open spec fn spec_consumer_group_assigns_subscription(
    ctx: ServerCtx,
    tape: Seq<Event>,
) -> FlowView<VerdictView> {
    match spec_consumer_group_version(ctx, 0) {
        Err(halt) => Err(halt),
        Ok(version) => match flows::spec_produce_flow(
            ctx,
            tape,
            0,
            "cgassign"@,
            Addressing::Name,
        ) {
            Err(halt) => Err(halt),
            Ok((produced, at)) => if produced.topic_id@ == wire::zero_id() {
                Err(
                    tape::spec_skip(
                        "assignments are addressed by topic id and CreateTopics returned none"@,
                        at,
                    ),
                )
            } else {
                let group = ctx.spec_check_group("cgassign"@);
                match group_flows::spec_coordinator_conn(
                    ctx,
                    tape,
                    at,
                    group,
                ) {
                    Err(halt) => Err(halt),
                    Ok((conn, at)) => {
                        let member_id = ctx.spec_member_id("assign"@);
                        match group_flows::spec_settle_assignment(
                            ctx,
                            tape,
                            at,
                            conn,
                            version,
                            group,
                            member_id,
                            produced.topic,
                            160,
                            0,
                            0,
                        ) {
                            Err(halt) => Err(halt),
                            Ok((answer, at)) => match group_flows::spec_leave_consumer_group(
                                tape,
                                at,
                                conn,
                                version,
                                group,
                                member_id,
                                169,
                            ) {
                                Err(halt) => Err(halt),
                                Ok((_, at)) => Ok(
                                    (
                                        spec_judge_assigned(
                                            group_flows::spec_assigned(answer),
                                            produced,
                                        ),
                                        at,
                                    ),
                                ),
                            },
                        }
                    },
                }
            },
        },
    }
}

/// Assigns what a member subscribed to, addressed by topic id.
pub fn consumer_group_assigns_subscription(
    ctx: &ServerCtx,
    tape: &Vec<Event>,
) -> (r: Flow<Verdict>)
    ensures
        tape::ran(r) == spec_consumer_group_assigns_subscription(*ctx, tape@),
{
    let version: i16 = consumer_group_version(ctx, 0)?;
    let (produced, at) = flows::produce_flow(ctx, tape, 0, "cgassign", Addressing::Name)?;
    if wire::is_zero_id(&produced.topic_id) {
        return Err(
            skip(
                String::from_str(
                    "assignments are addressed by topic id and CreateTopics returned none",
                ),
                at,
            ),
        );
    }
    let group = ctx.check_group("cgassign");
    let (conn, at) = group_flows::coordinator_conn(ctx, tape, at, group.as_str())?;
    let member_id = ctx.mint_member_id("assign");
    let (answer, at) = group_flows::settle_assignment(
        ctx,
        tape,
        at,
        conn,
        version,
        group.as_str(),
        member_id.as_str(),
        &produced.topic,
        160,
    )?;
    let (_, at) = group_flows::leave_consumer_group(
        tape,
        at,
        conn,
        version,
        group.as_str(),
        member_id.as_str(),
        169,
    )?;
    Ok((judge_answer_assigned(&answer.assignment, &produced), at))
}

pub open spec fn spec_consumer_group_omitted_subscription(
    ctx: ServerCtx,
    tape: Seq<Event>,
) -> FlowView<VerdictView> {
    match spec_consumer_group_version(ctx, 0) {
        Err(halt) => Err(halt),
        Ok(version) => match flows::spec_produce_flow(
            ctx,
            tape,
            0,
            "cgsteady"@,
            Addressing::Name,
        ) {
            Err(halt) => Err(halt),
            Ok((produced, at)) => if produced.topic_id@ == wire::zero_id() {
                Err(
                    tape::spec_skip(
                        "assignments are addressed by topic id and CreateTopics returned none"@,
                        at,
                    ),
                )
            } else {
                let group = ctx.spec_check_group("cgsteady"@);
                match group_flows::spec_coordinator_conn(
                    ctx,
                    tape,
                    at,
                    group,
                ) {
                    Err(halt) => Err(halt),
                    Ok((conn, at)) => {
                        let member_id = ctx.spec_member_id("steady"@);
                        match group_flows::spec_settle_assignment(
                            ctx,
                            tape,
                            at,
                            conn,
                            version,
                            group,
                            member_id,
                            produced.topic,
                            170,
                            0,
                            0,
                        ) {
                            Err(halt) => Err(halt),
                            Ok((settled, at)) => match group_flows::spec_group_heartbeat(
                                tape,
                                at,
                                conn,
                                version,
                                group,
                                member_id,
                                settled.member_epoch,
                                None,
                                180,
                            ) {
                                Err(halt) => Err(halt),
                                Ok((quiet, at)) => match group_flows::spec_leave_consumer_group(
                                    tape,
                                    at,
                                    conn,
                                    version,
                                    group,
                                    member_id,
                                    181,
                                ) {
                                    Err(halt) => Err(halt),
                                    Ok((_, at)) => if !quiet.error.ok() {
                                        Err(
                                            tape::spec_fail(
                                                "a heartbeat stating nothing new was answered "@
                                                    + quiet.error.shown@,
                                                at,
                                            ),
                                        )
                                    } else {
                                        Ok((spec_judge_quiet(quiet.assignment, produced), at))
                                    },
                                },
                            },
                        }
                    },
                }
            },
        },
    }
}

/// Leaves the assignment of a member alone when its heartbeat says nothing:
/// the absent field does not unsubscribe.
pub fn consumer_group_omitted_subscription(
    ctx: &ServerCtx,
    tape: &Vec<Event>,
) -> (r: Flow<Verdict>)
    ensures
        tape::ran(r) == spec_consumer_group_omitted_subscription(*ctx, tape@),
{
    let version: i16 = consumer_group_version(ctx, 0)?;
    let (produced, at) = flows::produce_flow(ctx, tape, 0, "cgsteady", Addressing::Name)?;
    if wire::is_zero_id(&produced.topic_id) {
        return Err(
            skip(
                String::from_str(
                    "assignments are addressed by topic id and CreateTopics returned none",
                ),
                at,
            ),
        );
    }
    let group = ctx.check_group("cgsteady");
    let (conn, at) = group_flows::coordinator_conn(ctx, tape, at, group.as_str())?;
    let member_id = ctx.mint_member_id("steady");
    let (settled, at) = group_flows::settle_assignment(
        ctx,
        tape,
        at,
        conn,
        version,
        group.as_str(),
        member_id.as_str(),
        &produced.topic,
        170,
    )?;
    let (quiet, at) = group_flows::consumer_group_heartbeat(
        tape,
        at,
        conn,
        version,
        group.as_str(),
        member_id.as_str(),
        settled.member_epoch,
        None,
        180,
    )?;
    let (_, at) = group_flows::leave_consumer_group(
        tape,
        at,
        conn,
        version,
        group.as_str(),
        member_id.as_str(),
        181,
    )?;
    if !quiet.error.is_ok() {
        return Err(
            fail(
                line("a heartbeat stating nothing new was answered ")
                    .lit(quiet.error.shown.as_str()).done(),
                at,
            ),
        );
    }
    Ok((judge_quiet(&quiet.assignment, &produced), at))
}

/// What a heartbeat with an epoch that was never issued is told.
pub open spec fn spec_judge_bogus_epoch(code: ErrorCode, ahead: i32, issued: i32) -> VerdictView {
    if code.code == wire::FENCED_MEMBER_EPOCH {
        VerdictView::Pass
    } else if code.ok() {
        VerdictView::Fail(
            "heartbeat claiming epoch "@ + text::dec(ahead as int) + " (the group issued "@
                + text::dec(issued as int) + ") was accepted"@,
        )
    } else {
        VerdictView::Fail(
            "a bogus epoch answered "@ + code.shown@ + ", expected FENCED_MEMBER_EPOCH"@,
        )
    }
}

pub open spec fn spec_consumer_group_fenced_epoch(
    ctx: ServerCtx,
    tape: Seq<Event>,
) -> FlowView<VerdictView> {
    match spec_consumer_group_version(ctx, 0) {
        Err(halt) => Err(halt),
        Ok(version) => {
            let group = ctx.spec_check_group("cgfence"@);
            match group_flows::spec_coordinator_conn(ctx, tape, 0, group) {
                Err(halt) => Err(halt),
                Ok((conn, at)) => {
                    let member_id = ctx.spec_member_id("fence"@);
                    match ctx::spec_fresh_topic(ctx, tape, at, "cgfence"@) {
                        Err(halt) => Err(halt),
                        Ok((topic, at)) => match group_flows::spec_group_heartbeat(
                            tape,
                            at,
                            conn,
                            version,
                            group,
                            member_id,
                            0,
                            Some(topic),
                            190,
                        ) {
                            Err(halt) => Err(halt),
                            Ok((joined, at)) => if !joined.error.ok() {
                                Err(tape::spec_fail("joining answered "@ + joined.error.shown@, at))
                            } else {
                                let ahead = joined.member_epoch.wrapping_add(99);
                                match group_flows::spec_group_heartbeat(
                                    tape,
                                    at,
                                    conn,
                                    version,
                                    group,
                                    member_id,
                                    ahead,
                                    None,
                                    191,
                                ) {
                                    Err(halt) => Err(halt),
                                    Ok((fenced, at)) => match group_flows::spec_leave_consumer_group(
                                        tape,
                                        at,
                                        conn,
                                        version,
                                        group,
                                        member_id,
                                        192,
                                    ) {
                                        Err(halt) => Err(halt),
                                        Ok((_, at)) => tape::spec_rule(
                                            spec_judge_bogus_epoch(
                                                fenced.error,
                                                ahead,
                                                joined.member_epoch,
                                            ),
                                            at,
                                        ),
                                    },
                                }
                            },
                        },
                    }
                },
            }
        },
    }
}

/// Fences a heartbeat whose epoch the group never issued.
pub fn consumer_group_fenced_epoch(ctx: &ServerCtx, tape: &Vec<Event>) -> (r: Flow<Verdict>)
    ensures
        tape::ran(r) == spec_consumer_group_fenced_epoch(*ctx, tape@),
{
    let version: i16 = consumer_group_version(ctx, 0)?;
    let group = ctx.check_group("cgfence");
    let (conn, at) = group_flows::coordinator_conn(ctx, tape, 0, group.as_str())?;
    let member_id = ctx.mint_member_id("fence");
    let (topic, at) = ctx::fresh_topic(ctx, tape, at, "cgfence")?;
    let (joined, at) = group_flows::consumer_group_heartbeat(
        tape,
        at,
        conn,
        version,
        group.as_str(),
        member_id.as_str(),
        0,
        Some(&topic),
        190,
    )?;
    if !joined.error.is_ok() {
        return Err(fail(line("joining answered ").lit(joined.error.shown.as_str()).done(), at));
    }
    let ahead: i32 = joined.member_epoch.wrapping_add(99);
    let (fenced, at) = group_flows::consumer_group_heartbeat(
        tape,
        at,
        conn,
        version,
        group.as_str(),
        member_id.as_str(),
        ahead,
        None,
        191,
    )?;
    let (_, at) = group_flows::leave_consumer_group(
        tape,
        at,
        conn,
        version,
        group.as_str(),
        member_id.as_str(),
        192,
    )?;
    if fenced.error.code == wire::FENCED_MEMBER_EPOCH {
        return Ok((Verdict::Pass, at));
    }
    if fenced.error.is_ok() {
        return Err(
            fail(
                line("heartbeat claiming epoch ").num(ahead as i64).lit(" (the group issued ")
                    .num(joined.member_epoch as i64).lit(") was accepted").done(),
                at,
            ),
        );
    }
    Err(
        fail(
            line("a bogus epoch answered ").lit(fenced.error.shown.as_str())
                .lit(", expected FENCED_MEMBER_EPOCH").done(),
            at,
        ),
    )
}

/// What a join without a member id is told.
pub open spec fn spec_judge_unnamed(refused: JoinGroupAnswer, version: i16) -> VerdictView {
    if refused.error.code != wire::MEMBER_ID_REQUIRED {
        VerdictView::Fail(
            "JoinGroup v"@ + text::dec(version as int) + " with an empty member id answered "@
                + refused.error.shown@ + ", expected MEMBER_ID_REQUIRED"@,
        )
    } else if refused.member_id@.len() == 0 {
        VerdictView::Fail(
            "MEMBER_ID_REQUIRED carried no member id, so there is nothing to rejoin with"@,
        )
    } else {
        VerdictView::Pass
    }
}

/// What a join with the id that was supplied is told.
pub open spec fn spec_judge_rejoin(code: ErrorCode) -> VerdictView {
    if !code.ok() {
        VerdictView::Fail(
            "rejoining with the id MEMBER_ID_REQUIRED supplied answered "@ + code.shown@,
        )
    } else {
        VerdictView::Pass
    }
}

pub open spec fn spec_groups_member_id_required(
    ctx: ServerCtx,
    tape: Seq<Event>,
) -> FlowView<VerdictView> {
    match ctx.spec_version(
        0,
        "JoinGroup"@,
        JOIN_GROUP,
        JOIN_GROUP_MEMBER_ID_REQUIRED,
        ctx.schema.join_group.max,
    ) {
        Err(halt) => Err(halt),
        Ok(version) => {
            let group = ctx.spec_check_group("memberid"@);
            match group_flows::spec_coordinator_conn(ctx, tape, 0, group) {
                Err(halt) => Err(halt),
                Ok((conn, at)) => match group_flows::spec_join_group(
                    tape,
                    at,
                    conn,
                    version,
                    group,
                    ""@,
                    120,
                ) {
                    Err(halt) => Err(halt),
                    Ok((refused, at)) => if !(spec_judge_unnamed(refused, version) is Pass) {
                        Err(HaltView::Stop(spec_judge_unnamed(refused, version), at))
                    } else {
                        match group_flows::spec_join_group(
                            tape,
                            at,
                            conn,
                            version,
                            group,
                            refused.member_id@,
                            121,
                        ) {
                            Err(halt) => Err(halt),
                            Ok((second, at)) => tape::spec_rule(
                                spec_judge_rejoin(second.error),
                                at,
                            ),
                        }
                    },
                },
            }
        },
    }
}

/// Refuses a join with no member id and says what to come back as, and that
/// id works.
pub fn groups_member_id_required(ctx: &ServerCtx, tape: &Vec<Event>) -> (r: Flow<Verdict>)
    ensures
        tape::ran(r) == spec_groups_member_id_required(*ctx, tape@),
{
    let version: i16 = ctx.version(
        0,
        "JoinGroup",
        JOIN_GROUP,
        JOIN_GROUP_MEMBER_ID_REQUIRED,
        ctx.schema.join_group.max,
    )?;
    let group = ctx.check_group("memberid");
    let (conn, at) = group_flows::coordinator_conn(ctx, tape, 0, group.as_str())?;
    let (refused, at) = group_flows::join_group(tape, at, conn, version, group.as_str(), "", 120)?;
    if refused.error.code != wire::MEMBER_ID_REQUIRED {
        return Err(
            fail(
                line("JoinGroup v").num(version as i64).lit(" with an empty member id answered ")
                    .lit(refused.error.shown.as_str()).lit(", expected MEMBER_ID_REQUIRED").done(),
                at,
            ),
        );
    }
    if refused.member_id.as_str().is_empty() {
        return Err(
            fail(
                String::from_str(
                    "MEMBER_ID_REQUIRED carried no member id, so there is nothing to rejoin with",
                ),
                at,
            ),
        );
    }
    let (second, at) = group_flows::join_group(
        tape,
        at,
        conn,
        version,
        group.as_str(),
        refused.member_id.as_str(),
        121,
    )?;
    if !second.error.is_ok() {
        return Err(
            fail(
                line("rejoining with the id MEMBER_ID_REQUIRED supplied answered ")
                    .lit(second.error.shown.as_str()).done(),
                at,
            ),
        );
    }
    Ok((Verdict::Pass, at))
}

/// Deliberately not an assignment any consumer protocol would write: the
/// coordinator has no business knowing the difference.
pub open spec fn spec_probe_assignment() -> Seq<u8> {
    seq![0x00u8, 0x03, 0xff, 0x7f, 0x00, 0xde, 0xad, 0xbe, 0xef]
}

fn probe_assignment() -> (r: Vec<u8>)
    ensures
        r@ == spec_probe_assignment(),
{
    let bytes: Vec<u8> = vec![0x00, 0x03, 0xff, 0x7f, 0x00, 0xde, 0xad, 0xbe, 0xef];
    assert(bytes@ =~= spec_probe_assignment());
    bytes
}

/// What the leader received of the assignment it supplied for itself.
pub open spec fn spec_judge_synced(answer: SyncGroupAnswer, sent: Seq<u8>) -> VerdictView {
    if !answer.error.ok() {
        VerdictView::Fail("SyncGroup as the group's leader answered "@ + answer.error.shown@)
    } else if answer.assignment@ == sent {
        VerdictView::Pass
    } else {
        VerdictView::Fail(
            "leader supplied "@ + text::dec(sent.len() as int)
                + " assignment byte(s), member received "@ + text::dec(
                answer.assignment@.len() as int,
            ) + ": "@ + text::int_list(text::ints_of_u8(sent)) + " vs "@ + text::int_list(
                text::ints_of_u8(answer.assignment@),
            ),
        )
    }
}

pub open spec fn spec_groups_assignment_round_trips(
    ctx: ServerCtx,
    tape: Seq<Event>,
) -> FlowView<VerdictView> {
    match spec_group_versions(ctx, 0) {
        Err(halt) => Err(halt),
        Ok(versions) => {
            let group = ctx.spec_check_group("assignment"@);
            match group_flows::spec_coordinator_conn(ctx, tape, 0, group) {
                Err(halt) => Err(halt),
                Ok((conn, at)) => match group_flows::spec_join_as_leader(
                    tape,
                    at,
                    conn,
                    versions.0,
                    group,
                    130,
                ) {
                    Err(halt) => Err(halt),
                    Ok(((member_id, generation), at)) => {
                        let sent = spec_probe_assignment();
                        match asks::spec_ask_sync_group(
                            tape,
                            at,
                            Label::Final("SyncGroup"@),
                            ActionOf::Call {
                                conn,
                                version: versions.1,
                                correlation: 132,
                                request: RequestOf::SyncGroup {
                                    group: group,
                                    generation,
                                    member_id: member_id,
                                    assignment: sent,
                                },
                            },
                        ) {
                            Err(halt) => Err(halt),
                            Ok((answer, at)) => tape::spec_rule(
                                spec_judge_synced(answer, sent),
                                at,
                            ),
                        }
                    },
                },
            }
        },
    }
}

/// Delivers the assignment the leader supplied, unexamined.
pub fn groups_assignment_round_trips(ctx: &ServerCtx, tape: &Vec<Event>) -> (r: Flow<Verdict>)
    ensures
        tape::ran(r) == spec_groups_assignment_round_trips(*ctx, tape@),
{
    let versions: (i16,i16) = group_versions(ctx, 0)?;
    let group = ctx.check_group("assignment");
    let (conn, at) = group_flows::coordinator_conn(ctx, tape, 0, group.as_str())?;
    let ((member_id, generation), at) = group_flows::join_as_leader(tape, at, conn, versions.0, group.as_str(), 130)?;
    let sent = probe_assignment();
    let (answer, at) = asks::ask_sync_group(
        tape,
        at,
        Label::Final("SyncGroup"),
        ActionOf::Call {
            conn,
            version: versions.1,
            correlation: 132,
            request: RequestOf::SyncGroup {
                group: group.clone(),
                generation,
                member_id: member_id.clone(),
                assignment: copy_bytes(&sent),
            },
        },
    )?;
    if !answer.error.is_ok() {
        return Err(
            fail(
                line("SyncGroup as the group's leader answered ").lit(answer.error.shown.as_str())
                    .done(),
                at,
            ),
        );
    }
    if same_bytes(answer.assignment.as_slice(), sent.as_slice()) {
        return Ok((Verdict::Pass, at));
    }
    Err(
        fail(
            line("leader supplied ").count(sent.len() as u128)
                .lit(" assignment byte(s), member received ")
                .count(answer.assignment.len() as u128).lit(": ").bytes(sent.as_slice())
                .lit(" vs ").bytes(answer.assignment.as_slice()).done(),
            at,
        ),
    )
}

/// What a heartbeat of an earlier generation is told.
pub open spec fn spec_judge_stale_generation(code: ErrorCode, stale: i32, generation: i32)
    -> VerdictView {
    if code.code == wire::ILLEGAL_GENERATION {
        VerdictView::Pass
    } else if code.ok() {
        VerdictView::Fail(
            "heartbeat carrying generation "@ + text::dec(stale as int) + " (the group is at "@
                + text::dec(generation as int)
                + ") was accepted, so a member that missed a rebalance keeps its old assignment"@,
        )
    } else {
        VerdictView::Fail(
            "stale heartbeat answered "@ + code.shown@ + ", expected ILLEGAL_GENERATION"@,
        )
    }
}

pub open spec fn spec_groups_stale_generation_fenced(
    ctx: ServerCtx,
    tape: Seq<Event>,
) -> FlowView<VerdictView> {
    match spec_group_versions(ctx, 0) {
        Err(halt) => Err(halt),
        Ok(versions) => match ctx.spec_version(
            0,
            "Heartbeat"@,
            HEARTBEAT,
            ctx.schema.heartbeat.min,
            ctx.schema.heartbeat.max,
        ) {
            Err(halt) => Err(halt),
            Ok(heartbeat_version) => {
                let group = ctx.spec_check_group("fencing"@);
                match group_flows::spec_coordinator_conn(ctx, tape, 0, group) {
                    Err(halt) => Err(halt),
                    Ok((conn, at)) => match group_flows::spec_join_as_leader(
                        tape,
                        at,
                        conn,
                        versions.0,
                        group,
                        140,
                    ) {
                        Err(halt) => Err(halt),
                        Ok(((member_id, generation), at)) => {
                            let stale = generation.wrapping_sub(1);
                            match group_flows::spec_heartbeat_code(
                                tape,
                                at,
                                Label::Final("Heartbeat"@),
                                conn,
                                heartbeat_version,
                                group,
                                member_id,
                                stale,
                                142,
                            ) {
                                Err(halt) => Err(halt),
                                Ok((code, at)) => tape::spec_rule(
                                    spec_judge_stale_generation(code, stale, generation),
                                    at,
                                ),
                            }
                        },
                    },
                }
            },
        },
    }
}

/// Refuses a heartbeat from a generation the group has left.
pub fn groups_stale_generation_fenced(ctx: &ServerCtx, tape: &Vec<Event>) -> (r: Flow<Verdict>)
    ensures
        tape::ran(r) == spec_groups_stale_generation_fenced(*ctx, tape@),
{
    let versions: (i16,i16) = group_versions(ctx, 0)?;
    let heartbeat_version: i16 = ctx.version(0, "Heartbeat", HEARTBEAT, ctx.schema.heartbeat.min, ctx.schema.heartbeat.max)?;
    let group = ctx.check_group("fencing");
    let (conn, at) = group_flows::coordinator_conn(ctx, tape, 0, group.as_str())?;
    let ((member_id, generation), at) = group_flows::join_as_leader(tape, at, conn, versions.0, group.as_str(), 140)?;
    let stale: i32 = generation.wrapping_sub(1);
    let (code, at) = group_flows::heartbeat_code(
        tape,
        at,
        Label::Final("Heartbeat"),
        conn,
        heartbeat_version,
        group.as_str(),
        member_id.as_str(),
        stale,
        142,
    )?;
    if code.code == wire::ILLEGAL_GENERATION {
        return Ok((Verdict::Pass, at));
    }
    if code.is_ok() {
        return Err(
            fail(
                line("heartbeat carrying generation ").num(stale as i64).lit(" (the group is at ")
                    .num(generation as i64)
                    .lit(") was accepted, so a member that missed a rebalance keeps its old assignment")
                    .done(),
                at,
            ),
        );
    }
    Err(
        fail(
            line("stale heartbeat answered ").lit(code.shown.as_str())
                .lit(", expected ILLEGAL_GENERATION").done(),
            at,
        ),
    )
}

/// What a heartbeat of a member that left is told.
pub open spec fn spec_judge_departed(code: ErrorCode, member_id: Seq<char>) -> VerdictView {
    if code.code == wire::UNKNOWN_MEMBER_ID {
        VerdictView::Pass
    } else if code.ok() {
        VerdictView::Fail(
            "a heartbeat from "@ + member_id
                + " was still accepted after it left; the coordinator believes a departed member owns its partitions, so nothing reassigns them"@,
        )
    } else {
        VerdictView::Fail(
            "a heartbeat after leaving answered "@ + code.shown@
                + " rather than UNKNOWN_MEMBER_ID"@,
        )
    }
}

pub open spec fn spec_groups_leave_unregisters_the_member(
    ctx: ServerCtx,
    tape: Seq<Event>,
) -> FlowView<VerdictView> {
    match spec_group_versions(ctx, 0) {
        Err(halt) => Err(halt),
        Ok(versions) => match ctx.spec_version(
            0,
            "LeaveGroup"@,
            LEAVE_GROUP,
            ctx.schema.leave_group.min,
            ctx.schema.leave_group.max,
        ) {
            Err(halt) => Err(halt),
            Ok(leave_version) => match ctx.spec_version(
                0,
                "Heartbeat"@,
                HEARTBEAT,
                ctx.schema.heartbeat.min,
                ctx.schema.heartbeat.max,
            ) {
                Err(halt) => Err(halt),
                Ok(heartbeat_version) => {
                    let group = ctx.spec_check_group("leaving"@);
                    match group_flows::spec_coordinator_conn(
                        ctx,
                        tape,
                        0,
                        group,
                    ) {
                        Err(halt) => Err(halt),
                        Ok((conn, at)) => match group_flows::spec_join_as_leader(
                            tape,
                            at,
                            conn,
                            versions.0,
                            group,
                            850,
                        ) {
                            Err(halt) => Err(halt),
                            Ok(((member_id, generation), at)) => match group_flows::spec_sync_as_leader(
                                tape,
                                at,
                                conn,
                                versions.1,
                                group,
                                member_id,
                                generation,
                                855,
                            ) {
                                Err(halt) => Err(halt),
                                Ok((_, at)) => match tape::spec_doing(
                                    group_flows::spec_heartbeat_code(
                                        tape,
                                        at,
                                        Label::Named("Heartbeat"@),
                                        conn,
                                        heartbeat_version,
                                        group,
                                        member_id,
                                        generation,
                                        860,
                                    ),
                                    "Heartbeat (before leaving)"@,
                                ) {
                                    Err(halt) => Err(halt),
                                    Ok((before, at)) => if !before.ok() {
                                        Err(
                                            tape::spec_fail(
                                                "a heartbeat from a synced member answered "@
                                                    + before.shown@
                                                    + " before it left, so nothing after the leave would prove anything"@,
                                                at,
                                            ),
                                        )
                                    } else {
                                        match tape::spec_doing(
                                            asks::spec_ask_code(
                                                tape,
                                                at,
                                                Label::Final("LeaveGroup"@),
                                                ActionOf::Call {
                                                    conn,
                                                    version: leave_version,
                                                    correlation: 870,
                                                    request: RequestOf::LeaveGroup {
                                                        group: group,
                                                        member_id: member_id,
                                                    },
                                                },
                                            ),
                                            "LeaveGroup"@,
                                        ) {
                                            Err(halt) => Err(halt),
                                            Ok((left, at)) => if !left.ok() {
                                                Err(
                                                    tape::spec_fail(
                                                        "leaving the group answered "@ + left.shown@,
                                                        at,
                                                    ),
                                                )
                                            } else {
                                                match tape::spec_doing(
                                                    group_flows::spec_heartbeat_code(
                                                        tape,
                                                        at,
                                                        Label::Named("Heartbeat"@),
                                                        conn,
                                                        heartbeat_version,
                                                        group,
                                                        member_id,
                                                        generation,
                                                        880,
                                                    ),
                                                    "Heartbeat (after leaving)"@,
                                                ) {
                                                    Err(halt) => Err(halt),
                                                    Ok((after, at)) => tape::spec_rule(
                                                        spec_judge_departed(after, member_id),
                                                        at,
                                                    ),
                                                }
                                            },
                                        }
                                    },
                                },
                            },
                        },
                    }
                },
            },
        },
    }
}

/// Stops honouring a member that has left. The group is synced first, so that
/// the heartbeat before the leave shows a live member.
pub fn groups_leave_unregisters_the_member(
    ctx: &ServerCtx,
    tape: &Vec<Event>,
) -> (r: Flow<Verdict>)
    ensures
        tape::ran(r) == spec_groups_leave_unregisters_the_member(*ctx, tape@),
{
    let versions: (i16,i16) = group_versions(ctx, 0)?;
    let leave_version: i16 = ctx.version(
        0,
        "LeaveGroup",
        LEAVE_GROUP,
        ctx.schema.leave_group.min,
        ctx.schema.leave_group.max,
    )?;
    let heartbeat_version: i16 = ctx.version(0, "Heartbeat", HEARTBEAT, ctx.schema.heartbeat.min, ctx.schema.heartbeat.max)?;
    let group = ctx.check_group("leaving");
    let (conn, at) = group_flows::coordinator_conn(ctx, tape, 0, group.as_str())?;
    let ((member_id, generation), at) = group_flows::join_as_leader(tape, at, conn, versions.0, group.as_str(), 850)?;
    let (_, at) = group_flows::sync_as_leader(
        tape,
        at,
        conn,
        versions.1,
        group.as_str(),
        member_id.as_str(),
        generation,
        855,
    )?;
    let (before, at) = doing_ref(
        group_flows::heartbeat_code(
            tape,
            at,
            Label::Named("Heartbeat"),
            conn,
            heartbeat_version,
            group.as_str(),
            member_id.as_str(),
            generation,
            860,
        ),
        "Heartbeat (before leaving)",
    )?;
    if !before.is_ok() {
        return Err(
            fail(
                line("a heartbeat from a synced member answered ").lit(before.shown.as_str())
                    .lit(" before it left, so nothing after the leave would prove anything").done(),
                at,
            ),
        );
    }
    let (left, at) = doing_ref(
        asks::ask_code(
            tape,
            at,
            Label::Final("LeaveGroup"),
            ActionOf::Call {
                conn,
                version: leave_version,
                correlation: 870,
                request: RequestOf::LeaveGroup {
                    group: group.clone(),
                    member_id: member_id.clone(),
                },
            },
        ),
        "LeaveGroup",
    )?;
    if !left.is_ok() {
        return Err(fail(line("leaving the group answered ").lit(left.shown.as_str()).done(), at));
    }
    let (after, at) = doing_ref(
        group_flows::heartbeat_code(
            tape,
            at,
            Label::Named("Heartbeat"),
            conn,
            heartbeat_version,
            group.as_str(),
            member_id.as_str(),
            generation,
            880,
        ),
        "Heartbeat (after leaving)",
    )?;
    if after.code == wire::UNKNOWN_MEMBER_ID {
        return Ok((Verdict::Pass, at));
    }
    if after.is_ok() {
        return Err(
            fail(
                line("a heartbeat from ").lit(member_id.as_str())
                    .lit(" was still accepted after it left; the coordinator believes a departed member owns its partitions, so nothing reassigns them")
                    .done(),
                at,
            ),
        );
    }
    Err(
        fail(
            line("a heartbeat after leaving answered ").lit(after.shown.as_str())
                .lit(" rather than UNKNOWN_MEMBER_ID").done(),
            at,
        ),
    )
}

/// What is said of a group with a member.
pub open spec fn spec_judge_described(
    groups: Seq<DescribedRow>,
    group: Seq<char>,
    member_id: Seq<char>,
) -> VerdictView {
    match find::first_where(groups, find::described_as(group)) {
        None => VerdictView::Fail(
            "DescribeGroups was asked about "@ + group + " and answered about neither"@,
        ),
        Some(described) => if !described.error.ok() {
            VerdictView::Fail("describing a live group answered "@ + described.error.shown@)
        } else if !find::lists(described.members@, member_id) {
            VerdictView::Fail(
                group + " has a synced member "@ + member_id + ", and DescribeGroups reports "@
                    + text::dec(described.members@.len() as int) + " member(s) (state "@
                    + text::quoted(described.group_state@)
                    + "); a group that reads as empty reads as safe to delete"@,
            )
        } else {
            VerdictView::Pass
        },
    }
}

pub open spec fn spec_describe_groups_reports_members(
    ctx: ServerCtx,
    tape: Seq<Event>,
) -> FlowView<VerdictView> {
    match spec_group_versions(ctx, 0) {
        Err(halt) => Err(halt),
        Ok(versions) => match ctx.spec_version(
            0,
            "DescribeGroups"@,
            DESCRIBE_GROUPS,
            ctx.schema.describe_groups.min,
            ctx.schema.describe_groups.max,
        ) {
            Err(halt) => Err(halt),
            Ok(describe_version) => {
                let group = ctx.spec_check_group("described"@);
                match group_flows::spec_coordinator_conn(ctx, tape, 0, group) {
                    Err(halt) => Err(halt),
                    Ok((conn, at)) => match group_flows::spec_join_as_leader(
                        tape,
                        at,
                        conn,
                        versions.0,
                        group,
                        920,
                    ) {
                        Err(halt) => Err(halt),
                        Ok(((member_id, generation), at)) => match group_flows::spec_sync_as_leader(
                            tape,
                            at,
                            conn,
                            versions.1,
                            group,
                            member_id,
                            generation,
                            930,
                        ) {
                            Err(halt) => Err(halt),
                            Ok((_, at)) => match tape::spec_doing(
                                asks::spec_ask_describe_groups(
                                    tape,
                                    at,
                                    Label::Final("DescribeGroups"@),
                                    ActionOf::Call {
                                        conn,
                                        version: describe_version,
                                        correlation: 940,
                                        request: RequestOf::DescribeGroups { group: group },
                                    },
                                ),
                                "DescribeGroups"@,
                            ) {
                                Err(halt) => Err(halt),
                                Ok((groups, at)) => tape::spec_rule(
                                    spec_judge_described(groups@, group, member_id),
                                    at,
                                ),
                            },
                        },
                    },
                }
            },
        },
    }
}

/// Names the members a described group has: one that reads as empty reads as
/// safe to delete.
pub fn describe_groups_reports_members(ctx: &ServerCtx, tape: &Vec<Event>) -> (r: Flow<Verdict>)
    ensures
        tape::ran(r) == spec_describe_groups_reports_members(*ctx, tape@),
{
    let versions: (i16,i16) = group_versions(ctx, 0)?;
    let describe_version: i16 = ctx.version(
        0,
        "DescribeGroups",
        DESCRIBE_GROUPS,
        ctx.schema.describe_groups.min,
        ctx.schema.describe_groups.max,
    )?;
    let group = ctx.check_group("described");
    let (conn, at) = group_flows::coordinator_conn(ctx, tape, 0, group.as_str())?;
    let ((member_id, generation), at) = group_flows::join_as_leader(tape, at, conn, versions.0, group.as_str(), 920)?;
    let (_, at) = group_flows::sync_as_leader(
        tape,
        at,
        conn,
        versions.1,
        group.as_str(),
        member_id.as_str(),
        generation,
        930,
    )?;
    let (groups, at) = doing_ref(
        asks::ask_describe_groups(
            tape,
            at,
            Label::Final("DescribeGroups"),
            ActionOf::Call {
                conn,
                version: describe_version,
                correlation: 940,
                request: RequestOf::DescribeGroups { group: group.clone() },
            },
        ),
        "DescribeGroups",
    )?;
    let described = match find::described_entry(groups, group.as_str()) {
        None => {
                return Err(
                    fail(
                        line("DescribeGroups was asked about ").lit(group.as_str())
                            .lit(" and answered about neither").done(),
                        at,
                    ),
                );
        },
        Some(found) => found,
    };
    if !described.error.is_ok() {
        return Err(
            fail(
                line("describing a live group answered ").lit(described.error.shown.as_str())
                    .done(),
                at,
            ),
        );
    }
    if !find::has_text_in(&described.members, member_id.as_str()) {
        return Err(
            fail(
                line(group.as_str()).lit(" has a synced member ").lit(member_id.as_str())
                    .lit(", and DescribeGroups reports ").count(described.members.len() as u128)
                    .lit(" member(s) (state ").quote(described.group_state.as_str())
                    .lit("); a group that reads as empty reads as safe to delete").done(),
                at,
            ),
        );
    }
    Ok((Verdict::Pass, at))
}

} // verus!

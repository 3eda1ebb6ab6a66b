//! Checks on ApiVersions, Metadata and topic administration.

use vstd::prelude::*;
use vstd::string::*;

use crate::checks::asks;
use crate::checks::asks::ask_api_versions;
use crate::checks::ctx;
use crate::checks::ctx::{
    advertised_range, correlation, fresh_topic, halt_at_version, hex16, ServerCtx,
};
use crate::checks::find;
use crate::checks::find::{has_i32, is_all_different, is_reachable, topic_named};
use crate::checks::flows;
use crate::checks::flows::{
    connect_to_controller, create_topic_call, metadata_of_topic, produce_flow, Addressing,
};
use crate::checks::tape;
use crate::checks::tape::{
    connect, doing, doing_ref, fail, pause_between, skip, Action, ActionOf, CheckError,
    ErrorView, Event, Flow, FlowView, Halt, HaltView, Label,
};
use crate::text;
use crate::text::{line, same_bytes};
use crate::wire;
use crate::wire::{
    ApiVersion, ApiVersionsAnswer, BrokerRow, CreatedRow, ErrorCode, MetadataAnswer, PartitionRow,
    RequestOf, TopicId, TopicRow, API_VERSIONS, CREATE_TOPICS, DELETE_TOPICS, METADATA,
};
use crate::{Verdict, VerdictView};

verus! {

/// One ApiVersions exchange on a fresh connection.
pub open spec fn spec_exchange(
    tape: Seq<Event>,
    at: int,
    addr: Seq<char>,
    newest: i16,
    version: i16,
    request_header: i16,
    correlation: i32,
    decode_at: i16,
) -> FlowView<ApiVersionsAnswer> {
    match tape::spec_connect(tape, at, addr) {
        Err(halt) => Err(halt),
        Ok((conn, at)) => asks::spec_ask_api_versions(
            tape,
            at,
            Label::Plain,
            ActionOf::Probe {
                conn,
                version,
                request_header,
                encode_at: if version <= newest { version } else { newest },
                correlation,
                decode_at,
            },
        ),
    }
}

/// Asks ApiVersions at `version` on a fresh connection. A version the codec
/// does not know is asked about in the newest shape it does know.
pub fn exchange<'a>(
    tape: &'a Vec<Event>,
    at: usize,
    addr: &str,
    newest: i16,
    version: i16,
    request_header: i16,
    correlation: i32,
    decode_at: i16,
) -> (r: Flow<&'a ApiVersionsAnswer>)
    ensures
        tape::read(r) == spec_exchange(
            tape@,
            at as int,
            addr@,
            newest,
            version,
            request_header,
            correlation,
            decode_at,
        ),
{
    let (conn, at) = connect(tape, at, addr)?;
    ask_api_versions(
        tape,
        at,
        Label::Plain,
        ActionOf::Probe {
            conn,
            version,
            request_header,
            encode_at: if version <= newest { version } else { newest },
            correlation,
            decode_at,
        },
    )
}

/// What discovery learned, in specifications.
pub open spec fn spec_discover(tape: Seq<Event>, addr: Seq<char>, newest: i16) -> Result<
    Result<Seq<ApiVersion>, Seq<char>>,
    ActionOf<Seq<char>, Seq<u8>>,
> {
    match spec_exchange(tape, 0, addr, newest, 0, 1, 9, 0) {
        Ok((answer, _)) => Ok(Ok(answer.api_keys@)),
        Err(HaltView::Ask(action)) => Err(action),
        Err(HaltView::Broke(ErrorView::Violation(_), _)) => Ok(Ok(Seq::empty())),
        Err(HaltView::Broke(ErrorView::Infra(details), _)) => Ok(
            Err("discovery (ApiVersions v0): "@ + details),
        ),
        Err(HaltView::Stop(VerdictView::Error(details), _)) => Ok(
            Err("discovery (ApiVersions v0): "@ + details),
        ),
        Err(HaltView::Stop(_, _)) => Ok(Ok(Seq::empty())),
    }
}

/// Learns the subject's api ranges: the ranges, nothing where the subject
/// answered unusably, or why the exchange could not run. The outer error is
/// what the harness must do first.
pub fn discover(tape: &Vec<Event>, addr: &str, newest: i16) -> (r: Result<
    Result<Vec<ApiVersion>, String>,
    Action,
>)
    ensures
        (match r {
            Ok(Ok(keys)) => Ok(Ok(keys@)),
            Ok(Err(details)) => Ok(Err(details@)),
            Err(action) => Err(action@),
        }) == spec_discover(tape@, addr@, newest),
{
    match exchange(tape, 0, addr, newest, 0, 1, 9, 0) {
        Ok((answer, _)) => {
            let mut keys: Vec<ApiVersion> = Vec::new();
            let mut i: usize = 0;
            while i < answer.api_keys.len()
                invariant
                    i <= answer.api_keys@.len(),
                    keys@ == answer.api_keys@.take(i as int),
                decreases answer.api_keys@.len() - i,
            {
                keys.push(answer.api_keys[i]);
                assert(keys@ =~= answer.api_keys@.take(i + 1));
                i = i + 1;
            }
            assert(answer.api_keys@.take(i as int) =~= answer.api_keys@);
            Ok(Ok(keys))
        },
        Err(Halt::Ask(action)) => Err(action),
        Err(Halt::Broke(CheckError::Violation(_), _)) => Ok(Ok(Vec::new())),
        Err(Halt::Broke(CheckError::Infra(details), _)) => Ok(
            Err(line("discovery (ApiVersions v0): ").lit(details.as_str()).done()),
        ),
        Err(Halt::Stop(Verdict::Error { details }, _)) => Ok(
            Err(line("discovery (ApiVersions v0): ").lit(details.as_str()).done()),
        ),
        Err(Halt::Stop(_, _)) => Ok(Ok(Vec::new())),
    }
}

pub open spec fn inverted() -> spec_fn(ApiVersion) -> bool {
    |v: ApiVersion| v.min_version > v.max_version
}

fn first_inverted(keys: &Vec<ApiVersion>) -> (r: Option<ApiVersion>)
    ensures
        r == find::first_where(keys@, inverted()),
{
    let mut i: usize = 0;
    assert(keys@.skip(0) =~= keys@);
    while i < keys.len()
        invariant
            i <= keys@.len(),
            find::first_where(keys@, inverted()) == find::first_where(
                keys@.skip(i as int),
                inverted(),
            ),
        decreases keys@.len() - i,
    {
        assert(keys@.skip(i as int).skip(1) =~= keys@.skip(i + 1));
        if keys[i].min_version > keys[i].max_version {
            return Some(keys[i]);
        }
        i = i + 1;
    }
    None
}

/// An ApiVersions v0 answer must carry no error and no inverted range, and
/// advertise ApiVersions from version 0.
pub open spec fn spec_judge_v0(answer: ApiVersionsAnswer) -> VerdictView {
    if !answer.error.ok() {
        VerdictView::Fail("error code "@ + answer.error.shown@)
    } else {
        match find::first_where(answer.api_keys@, inverted()) {
            Some(v) => VerdictView::Fail(
                "api key "@ + text::dec(v.api_key as int) + " advertises min "@ + text::dec(
                    v.min_version as int,
                ) + " > max "@ + text::dec(v.max_version as int),
            ),
            None => match ctx::spec_advertised(answer.api_keys@, API_VERSIONS) {
                Some((min, max)) => if min <= 0 {
                    VerdictView::Pass
                } else {
                    VerdictView::Fail(
                        "ApiVersions advertised as "@ + text::dec(min as int) + "-"@ + text::dec(
                            max as int,
                        ) + ", but the server just answered v0"@,
                    )
                },
                None => VerdictView::Fail(
                    "response does not advertise the ApiVersions api itself"@,
                ),
            },
        }
    }
}

pub fn judge_v0(answer: &ApiVersionsAnswer) -> (r: Verdict)
    ensures
        r@ == spec_judge_v0(*answer),
{
    if !answer.error.is_ok() {
        return Verdict::Fail {
            details: line("error code ").lit(answer.error.shown.as_str()).done(),
        };
    }
    if let Some(v) = first_inverted(&answer.api_keys) {
        return Verdict::Fail {
            details: line("api key ").num(v.api_key as i64).lit(" advertises min ").num(
                v.min_version as i64,
            ).lit(" > max ").num(v.max_version as i64).done(),
        };
    }
    match advertised_range(&answer.api_keys, API_VERSIONS) {
        Some((min, max)) => if min <= 0 {
            Verdict::Pass
        } else {
            Verdict::Fail {
                details: line("ApiVersions advertised as ").num(min as i64).lit("-").num(
                    max as i64,
                ).lit(", but the server just answered v0").done(),
            }
        },
        None => Verdict::Fail {
            details: String::from_str("response does not advertise the ApiVersions api itself"),
        },
    }
}

pub open spec fn spec_v0_basic(ctx: ServerCtx, tape: Seq<Event>) -> FlowView<VerdictView> {
    match spec_exchange(tape, 0, ctx.addr@, ctx.schema.api_versions.max, 0, 1, 1, 0) {
        Err(halt) => Err(halt),
        Ok((answer, at)) => Ok((spec_judge_v0(answer), at)),
    }
}

/// Answers ApiVersions v0 soundly.
pub fn v0_basic(ctx: &ServerCtx, tape: &Vec<Event>) -> (r: Flow<Verdict>)
    ensures
        tape::ran(r) == spec_v0_basic(*ctx, tape@),
{
    let (answer, at) = exchange(
        tape,
        0,
        ctx.addr.as_str(),
        ctx.schema.api_versions.max,
        0,
        1,
        1,
        0,
    )?;
    Ok((judge_v0(answer), at))
}

/// An unusual correlation id.
pub const UNUSUAL_CORRELATION: i32 = 2_147_483_630;

pub open spec fn spec_correlation_echo(ctx: ServerCtx, tape: Seq<Event>) -> FlowView<VerdictView> {
    match spec_exchange(
        tape,
        0,
        ctx.addr@,
        ctx.schema.api_versions.max,
        0,
        1,
        UNUSUAL_CORRELATION,
        0,
    ) {
        Err(halt) => Err(halt),
        Ok((_, at)) => Ok((VerdictView::Pass, at)),
    }
}

/// Echoes the correlation id, an unusual one too: the exchange itself
/// rejects an answer that does not.
pub fn correlation_echo(ctx: &ServerCtx, tape: &Vec<Event>) -> (r: Flow<Verdict>)
    ensures
        tape::ran(r) == spec_correlation_echo(*ctx, tape@),
{
    let (_, at) = exchange(
        tape,
        0,
        ctx.addr.as_str(),
        ctx.schema.api_versions.max,
        0,
        1,
        UNUSUAL_CORRELATION,
        0,
    )?;
    Ok((Verdict::Pass, at))
}

/// The newest ApiVersions version advertised, where it is a flexible one.
pub open spec fn spec_flexible_max(ctx: ServerCtx) -> Result<i16, HaltView> {
    match ctx.spec_range(API_VERSIONS) {
        Err(verdict) => Err(HaltView::Stop(verdict, 0)),
        Ok(None) => Err(tape::spec_skip("advertised range unknown (v0-basic failed)"@, 0)),
        Ok(Some((_, max))) => if max < 3 {
            Err(
                tape::spec_skip(
                    "server only advertises ApiVersions up to v"@ + text::dec(max as int),
                    0,
                ),
            )
        } else {
            Ok(max)
        },
    }
}

fn flexible_max(ctx: &ServerCtx) -> (r: Result<i16, Halt>)
    ensures
        tape::held(r) == spec_flexible_max(*ctx),
{
    match ctx.range(API_VERSIONS) {
        Err(verdict) => Err(Halt::Stop(verdict, 0)),
        Ok(None) => Err(
            skip(String::from_str("advertised range unknown (v0-basic failed)"), 0),
        ),
        Ok(Some((_, max))) => if max < 3 {
            Err(
                skip(
                    line("server only advertises ApiVersions up to v").num(max as i64).done(),
                    0,
                ),
            )
        } else {
            Ok(max)
        },
    }
}

pub open spec fn spec_flexible_v3(ctx: ServerCtx, tape: Seq<Event>) -> FlowView<VerdictView> {
    match spec_flexible_max(ctx) {
        Err(halt) => Err(halt),
        Ok(max) => {
            let newest = ctx.schema.api_versions.max;
            let version = if max <= newest { max } else { newest };
            match spec_exchange(tape, 0, ctx.addr@, newest, version, 2, 2, version) {
                Err(halt) => Err(halt),
                Ok((answer, at)) => Ok(
                    (
                        if answer.error.ok() {
                            VerdictView::Pass
                        } else {
                            VerdictView::Fail("error code "@ + answer.error.shown@)
                        },
                        at,
                    ),
                ),
            }
        },
    }
}

/// Answers a flexible ApiVersions request with a v0 response header.
pub fn flexible_v3(ctx: &ServerCtx, tape: &Vec<Event>) -> (r: Flow<Verdict>)
    ensures
        tape::ran(r) == spec_flexible_v3(*ctx, tape@),
{
    let max: i16 = flexible_max(ctx)?;
    let newest: i16 = ctx.schema.api_versions.max;
    let version: i16 = if max <= newest { max } else { newest };
    let (answer, at) = exchange(tape, 0, ctx.addr.as_str(), newest, version, 2, 2, version)?;
    if answer.error.is_ok() {
        Ok((Verdict::Pass, at))
    } else {
        Ok(
            (
                Verdict::Fail {
                    details: line("error code ").lit(answer.error.shown.as_str()).done(),
                },
                at,
            ),
        )
    }
}

/// A from-the-future request must be refused in a v0 answer that advertises
/// the range advertised before.
pub open spec fn spec_judge_unsupported(answer: ApiVersionsAnswer, max: i16) -> VerdictView {
    if answer.error.code != wire::UNSUPPORTED_VERSION {
        VerdictView::Fail("expected UNSUPPORTED_VERSION (35), got "@ + answer.error.shown@)
    } else {
        match ctx::spec_advertised(answer.api_keys@, API_VERSIONS) {
            Some((_, stated)) => if stated == max {
                VerdictView::Pass
            } else {
                VerdictView::Fail(
                    "error response advertises ApiVersions max v"@ + text::dec(stated as int)
                        + ", but the server previously advertised v"@ + text::dec(max as int),
                )
            },
            None => VerdictView::Fail(
                "UNSUPPORTED_VERSION response does not advertise the supported ApiVersions range"@,
            ),
        }
    }
}

pub fn judge_unsupported(answer: &ApiVersionsAnswer, max: i16) -> (r: Verdict)
    ensures
        r@ == spec_judge_unsupported(*answer, max),
{
    if answer.error.code != wire::UNSUPPORTED_VERSION {
        return Verdict::Fail {
            details: line("expected UNSUPPORTED_VERSION (35), got ").lit(
                answer.error.shown.as_str(),
            ).done(),
        };
    }
    match advertised_range(&answer.api_keys, API_VERSIONS) {
        Some((_, stated)) => if stated == max {
            Verdict::Pass
        } else {
            Verdict::Fail {
                details: line("error response advertises ApiVersions max v").num(
                    stated as i64,
                ).lit(", but the server previously advertised v").num(max as i64).done(),
            }
        },
        None => Verdict::Fail {
            details: String::from_str(
                "UNSUPPORTED_VERSION response does not advertise the supported ApiVersions range",
            ),
        },
    }
}

pub open spec fn spec_unsupported_version(ctx: ServerCtx, tape: Seq<Event>) -> FlowView<
    VerdictView,
> {
    match spec_flexible_max(ctx) {
        Err(halt) => Err(halt),
        Ok(max) => match spec_exchange(
            tape,
            0,
            ctx.addr@,
            ctx.schema.api_versions.max,
            max.wrapping_add(7),
            2,
            3,
            0,
        ) {
            Err(halt) => Err(halt),
            Ok((answer, at)) => Ok((spec_judge_unsupported(answer, max), at)),
        },
    }
}

/// Rejects an ApiVersions request newer than it supports.
pub fn unsupported_version(ctx: &ServerCtx, tape: &Vec<Event>) -> (r: Flow<Verdict>)
    ensures
        tape::ran(r) == spec_unsupported_version(*ctx, tape@),
{
    let max: i16 = flexible_max(ctx)?;
    let (answer, at) = exchange(
        tape,
        0,
        ctx.addr.as_str(),
        ctx.schema.api_versions.max,
        max.wrapping_add(7),
        2,
        3,
        0,
    )?;
    Ok((judge_unsupported(answer, max), at))
}

pub open spec fn node_ids(brokers: Seq<BrokerRow>) -> Seq<i32> {
    brokers.map_values(|b: BrokerRow| b.node_id)
}

pub fn ids_of(brokers: &Vec<BrokerRow>) -> (r: Vec<i32>)
    ensures
        r@ == node_ids(brokers@),
{
    let mut ids: Vec<i32> = Vec::new();
    let mut i: usize = 0;
    while i < brokers.len()
        invariant
            i <= brokers@.len(),
            ids@ == node_ids(brokers@).take(i as int),
        decreases brokers@.len() - i,
    {
        ids.push(brokers[i].node_id);
        assert(ids@ =~= node_ids(brokers@).take(i + 1));
        i = i + 1;
    }
    assert(node_ids(brokers@).take(i as int) =~= node_ids(brokers@));
    ids
}

pub open spec fn unreachable_broker() -> spec_fn(BrokerRow) -> bool {
    |b: BrokerRow| !find::reachable(b.host@, b.port)
}

fn first_unreachable(brokers: &Vec<BrokerRow>) -> (r: Option<&BrokerRow>)
    ensures
        find::found(r) == find::first_where(brokers@, unreachable_broker()),
{
    let mut i: usize = 0;
    assert(brokers@.skip(0) =~= brokers@);
    while i < brokers.len()
        invariant
            i <= brokers@.len(),
            find::first_where(brokers@, unreachable_broker()) == find::first_where(
                brokers@.skip(i as int),
                unreachable_broker(),
            ),
        decreases brokers@.len() - i,
    {
        assert(brokers@.skip(i as int).skip(1) =~= brokers@.skip(i + 1));
        if !is_reachable(&brokers[i].host, brokers[i].port) {
            return Some(&brokers[i]);
        }
        i = i + 1;
    }
    None
}

/// What an answer to a Metadata request naming no topics must look like.
pub open spec fn spec_metadata_shape(answer: MetadataAnswer) -> VerdictView {
    if answer.brokers@.len() == 0 {
        VerdictView::Fail("brokers list is empty"@)
    } else if !find::all_different(node_ids(answer.brokers@)) {
        VerdictView::Fail("brokers list repeats a node id"@)
    } else {
        match find::first_where(answer.brokers@, unreachable_broker()) {
            Some(b) => VerdictView::Fail(
                "broker "@ + text::dec(b.node_id as int) + " advertises implausible endpoint "@
                    + text::quoted(b.host@) + ":"@ + text::dec(b.port as int),
            ),
            None => if answer.topics@.len() > 0 {
                VerdictView::Fail(
                    "requested no topics, response names "@ + text::dec(
                        answer.topics@.len() as int,
                    ) + " topic(s)"@,
                )
            } else {
                VerdictView::Pass
            },
        }
    }
}

pub fn metadata_shape(answer: &MetadataAnswer) -> (r: Verdict)
    ensures
        r@ == spec_metadata_shape(*answer),
{
    if answer.brokers.len() == 0 {
        return Verdict::Fail { details: String::from_str("brokers list is empty") };
    }
    let ids = ids_of(&answer.brokers);
    if !is_all_different(&ids) {
        return Verdict::Fail { details: String::from_str("brokers list repeats a node id") };
    }
    if let Some(b) = first_unreachable(&answer.brokers) {
        return Verdict::Fail {
            details: line("broker ").num(b.node_id as i64).lit(
                " advertises implausible endpoint ",
            ).quote(b.host.as_str()).lit(":").num(b.port as i64).done(),
        };
    }
    if answer.topics.len() > 0 {
        return Verdict::Fail {
            details: line("requested no topics, response names ").count(
                answer.topics.len() as u128,
            ).lit(" topic(s)").done(),
        };
    }
    Verdict::Pass
}

/// One Metadata exchange naming no topics, on a fresh connection.
pub open spec fn spec_metadata_exchange(
    tape: Seq<Event>,
    at: int,
    addr: Seq<char>,
    version: i16,
    correlation: i32,
) -> FlowView<MetadataAnswer> {
    match tape::spec_connect(tape, at, addr) {
        Err(halt) => Err(halt),
        Ok((conn, at)) => asks::spec_ask_metadata(
            tape,
            at,
            Label::Plain,
            ActionOf::Call {
                conn,
                version,
                correlation,
                request: RequestOf::Metadata { topic: None },
            },
        ),
    }
}

pub fn metadata_exchange<'a>(
    tape: &'a Vec<Event>,
    at: usize,
    addr: &str,
    version: i16,
    correlation: i32,
) -> (r: Flow<&'a MetadataAnswer>)
    ensures
        tape::read(r) == spec_metadata_exchange(tape@, at as int, addr@, version, correlation),
{
    let (conn, at) = connect(tape, at, addr)?;
    asks::ask_metadata(
        tape,
        at,
        Label::Plain,
        ActionOf::Call {
            conn,
            version,
            correlation,
            request: RequestOf::Metadata { topic: None },
        },
    )
}

/// The sweep over the versions of Metadata, from the `i`th on.
pub open spec fn spec_metadata_sweep(
    ctx: ServerCtx,
    tape: Seq<Event>,
    at: int,
    versions: Seq<i16>,
    i: int,
) -> FlowView<VerdictView>
    decreases versions.len() - i,
{
    if !(0 <= i < versions.len()) {
        Ok((VerdictView::Pass, at))
    } else {
        match spec_metadata_exchange(
            tape,
            at,
            ctx.addr@,
            versions[i],
            ctx::spec_correlation(4, i),
        ) {
            Err(halt) => Err(ctx::spec_halt_at_version(halt, versions[i])),
            Ok((answer, at)) => match spec_metadata_shape(answer) {
                VerdictView::Fail(details) => Ok(
                    (ctx::spec_at_version(VerdictView::Fail(details), versions[i]), at),
                ),
                _ => spec_metadata_sweep(ctx, tape, at, versions, i + 1),
            },
        }
    }
}

pub open spec fn spec_metadata_basic(ctx: ServerCtx, tape: Seq<Event>) -> FlowView<VerdictView> {
    match ctx.spec_versions(0, "Metadata"@, METADATA, 1, ctx.schema.metadata.max) {
        Err(halt) => Err(halt),
        Ok(versions) => spec_metadata_sweep(ctx, tape, 0, versions, 0),
    }
}

/// Describes its brokers, and only them, at every version.
pub fn metadata_basic(ctx: &ServerCtx, tape: &Vec<Event>) -> (r: Flow<Verdict>)
    ensures
        tape::ran(r) == spec_metadata_basic(*ctx, tape@),
{
    let versions = ctx.versions(0, "Metadata", METADATA, 1, ctx.schema.metadata.max)?;
    let mut here: usize = 0;
    let mut i: usize = 0;
    while i < versions.len()
        invariant
            i <= versions@.len(),
            versions@.len() <= 65536,
            spec_metadata_basic(*ctx, tape@) == spec_metadata_sweep(
                *ctx,
                tape@,
                here as int,
                versions@,
                i as int,
            ),
        decreases versions@.len() - i,
    {
        let version: i16 = versions[i];
        let (answer, next) = match metadata_exchange(
            tape,
            here,
            ctx.addr.as_str(),
            version,
            correlation(4, i as u32),
        ) {
            Ok(done) => done,
            Err(halt) => return Err(halt_at_version(halt, version)),
        };
        if let Verdict::Fail { details } = metadata_shape(answer) {
            return Ok((Verdict::Fail { details }.at_version(version), next));
        }
        here = next;
        i = i + 1;
    }
    Ok((Verdict::Pass, here))
}

pub open spec fn spec_metadata_flexible_header(ctx: ServerCtx, tape: Seq<Event>) -> FlowView<
    VerdictView,
> {
    match ctx.spec_version(0, "Metadata"@, METADATA, 9, ctx.schema.metadata.max) {
        Err(halt) => Err(halt),
        Ok(version) => match spec_metadata_exchange(tape, 0, ctx.addr@, version, 5) {
            Err(halt) => Err(halt),
            Ok((_, at)) => Ok((VerdictView::Pass, at)),
        },
    }
}

/// Answers a flexible Metadata request with a v1 response header: the
/// exchange decodes it as one and demands that the body use every byte.
pub fn metadata_flexible_header(ctx: &ServerCtx, tape: &Vec<Event>) -> (r: Flow<Verdict>)
    ensures
        tape::ran(r) == spec_metadata_flexible_header(*ctx, tape@),
{
    let version: i16 = ctx.version(0, "Metadata", METADATA, 9, ctx.schema.metadata.max)?;
    let (_, at) = metadata_exchange(tape, 0, ctx.addr.as_str(), version, 5)?;
    Ok((Verdict::Pass, at))
}

/// A topic that does not exist must be named, with the code that says so.
pub open spec fn spec_judge_unknown_topic(answer: MetadataAnswer, topic: Seq<char>) -> VerdictView {
    match find::first_where(answer.topics@, find::is_named(topic)) {
        None => VerdictView::Fail(
            "asked about "@ + text::quoted(topic) + ", which does not exist; response names "@
                + text::dec(answer.topics@.len() as int)
                + " topic(s) and not that one, so a client cannot tell absent from ignored"@,
        ),
        Some(entry) => if entry.error.code == wire::UNKNOWN_TOPIC_OR_PARTITION {
            VerdictView::Pass
        } else {
            VerdictView::Fail(
                text::quoted(topic) + " does not exist but is reported with "@
                    + entry.error.shown@,
            )
        },
    }
}

pub fn judge_unknown_topic(answer: &MetadataAnswer, topic: &str) -> (r: Verdict)
    ensures
        r@ == spec_judge_unknown_topic(*answer, topic@),
{
    match topic_named(&answer.topics, topic) {
        None => Verdict::Fail {
            details: line("asked about ").quote(topic).lit(
                ", which does not exist; response names ",
            ).count(answer.topics.len() as u128).lit(
                " topic(s) and not that one, so a client cannot tell absent from ignored",
            ).done(),
        },
        Some(entry) => if entry.error.code == wire::UNKNOWN_TOPIC_OR_PARTITION {
            Verdict::Pass
        } else {
            let named = line("").quote(topic).done();
            assert(named@ =~= text::quoted(topic@)) by {
                reveal_strlit("");
            }
            Verdict::Fail {
                details: line(named.as_str()).lit(" does not exist but is reported with ").lit(
                    entry.error.shown.as_str(),
                ).done(),
            }
        },
    }
}

pub open spec fn spec_metadata_unknown_topic(ctx: ServerCtx, tape: Seq<Event>) -> FlowView<
    VerdictView,
> {
    match ctx.spec_version(0, "Metadata"@, METADATA, 1, ctx.schema.metadata.max) {
        Err(halt) => Err(halt),
        Ok(version) => match ctx::spec_fresh_topic(ctx, tape, 0, "nosuch"@) {
            Err(halt) => Err(halt),
            Ok((topic, at)) => match tape::spec_connect(tape, at, ctx.addr@) {
                Err(halt) => Err(halt),
                Ok((conn, at)) => match flows::spec_metadata(
                    tape,
                    at,
                    conn,
                    version,
                    Some(topic),
                    95,
                ) {
                    Err(halt) => Err(halt),
                    Ok((answer, at)) => Ok((spec_judge_unknown_topic(answer, topic), at)),
                },
            },
        },
    }
}

/// Names a topic it does not have, rather than leaving it out.
pub fn metadata_unknown_topic(ctx: &ServerCtx, tape: &Vec<Event>) -> (r: Flow<Verdict>)
    ensures
        tape::ran(r) == spec_metadata_unknown_topic(*ctx, tape@),
{
    let version: i16 = ctx.version(0, "Metadata", METADATA, 1, ctx.schema.metadata.max)?;
    let (topic, at) = fresh_topic(ctx, tape, 0, "nosuch")?;
    let (conn, at) = connect(tape, at, ctx.addr.as_str())?;
    let (answer, at) = metadata_of_topic(tape, at, conn, version, topic.as_str(), 95)?;
    Ok((judge_unknown_topic(answer, topic.as_str()), at))
}

/// A version of CreateTopics, a connection, and a fresh topic name.
pub open spec fn spec_creating(ctx: ServerCtx, tape: Seq<Event>, tag: Seq<char>) -> FlowView<
    (i16, usize, Seq<char>),
> {
    match ctx.spec_version(
        0,
        "CreateTopics"@,
        CREATE_TOPICS,
        ctx.schema.create_topics.min,
        ctx.schema.create_topics.max,
    ) {
        Err(halt) => Err(halt),
        Ok(version) => match tape::spec_connect(tape, 0, ctx.addr@) {
            Err(halt) => Err(halt),
            Ok((conn, at)) => match ctx::spec_fresh_topic(ctx, tape, at, tag) {
                Err(halt) => Err(halt),
                Ok((topic, at)) => Ok(((version, conn, topic), at)),
            },
        },
    }
}

fn creating(ctx: &ServerCtx, tape: &Vec<Event>, tag: &str) -> (r: Flow<(i16, usize, String)>)
    ensures
        tape::ran(r) == spec_creating(*ctx, tape@, tag@),
{
    let version: i16 = ctx.version(
        0,
        "CreateTopics",
        CREATE_TOPICS,
        ctx.schema.create_topics.min,
        ctx.schema.create_topics.max,
    )?;
    let (conn, at) = connect(tape, 0, ctx.addr.as_str())?;
    let (topic, at) = fresh_topic(ctx, tape, at, tag)?;
    Ok(((version, conn, topic), at))
}

pub open spec fn spec_judge_duplicate(code: ErrorCode) -> VerdictView {
    if code.code == wire::TOPIC_ALREADY_EXISTS {
        VerdictView::Pass
    } else if code.ok() {
        VerdictView::Fail("creating the same topic twice succeeded both times"@)
    } else {
        VerdictView::Fail(
            "recreating an existing topic answered "@ + code.shown@
                + ", expected TOPIC_ALREADY_EXISTS"@,
        )
    }
}

pub open spec fn spec_create_topics_duplicate(ctx: ServerCtx, tape: Seq<Event>) -> FlowView<
    VerdictView,
> {
    match spec_creating(ctx, tape, "dup"@) {
        Err(halt) => Err(halt),
        Ok(((version, conn, topic), at)) => match flows::spec_create_topic(
            ctx,
            tape,
            at,
            conn,
            version,
            topic,
            false,
            96,
        ) {
            Err(halt) => Err(halt),
            Ok((row, at)) => if !row.error.ok() {
                Err(
                    tape::spec_fail(
                        "creating a fresh topic failed with "@ + row.error.shown@,
                        at,
                    ),
                )
            } else {
                match flows::spec_create_topic(ctx, tape, at, conn, version, topic, false, 97) {
                    Err(halt) => Err(halt),
                    Ok((row, at)) => Ok((spec_judge_duplicate(row.error), at)),
                }
            },
        },
    }
}

/// Refuses to create a topic that exists, and says why.
pub fn create_topics_duplicate(ctx: &ServerCtx, tape: &Vec<Event>) -> (r: Flow<Verdict>)
    ensures
        tape::ran(r) == spec_create_topics_duplicate(*ctx, tape@),
{
    let ((version, conn, topic), at) = creating(ctx, tape, "dup")?;
    let (row, at) = create_topic_call(ctx, tape, at, conn, version, topic.as_str(), false, 96)?;
    if !row.error.is_ok() {
        return Err(
            fail(
                line("creating a fresh topic failed with ").lit(row.error.shown.as_str()).done(),
                at,
            ),
        );
    }
    let (row, at) = create_topic_call(ctx, tape, at, conn, version, topic.as_str(), false, 97)?;
    if row.error.code == wire::TOPIC_ALREADY_EXISTS {
        Ok((Verdict::Pass, at))
    } else if row.error.is_ok() {
        Ok(
            (
                Verdict::Fail {
                    details: String::from_str("creating the same topic twice succeeded both times"),
                },
                at,
            ),
        )
    } else {
        Ok(
            (
                Verdict::Fail {
                    details: line("recreating an existing topic answered ").lit(
                        row.error.shown.as_str(),
                    ).lit(", expected TOPIC_ALREADY_EXISTS").done(),
                },
                at,
            ),
        )
    }
}

pub open spec fn spec_judge_validated(code: ErrorCode) -> VerdictView {
    if code.ok() {
        VerdictView::Pass
    } else if code.code == wire::TOPIC_ALREADY_EXISTS {
        VerdictView::Fail(
            "validate_only created the topic: the real create that followed it reported TOPIC_ALREADY_EXISTS"@,
        )
    } else {
        VerdictView::Fail("creating the topic after validating it answered "@ + code.shown@)
    }
}

pub open spec fn spec_create_topics_validate_only(ctx: ServerCtx, tape: Seq<Event>) -> FlowView<
    VerdictView,
> {
    match spec_creating(ctx, tape, "validate"@) {
        Err(halt) => Err(halt),
        Ok(((version, conn, topic), at)) => match flows::spec_create_topic(
            ctx,
            tape,
            at,
            conn,
            version,
            topic,
            true,
            98,
        ) {
            Err(halt) => Err(halt),
            Ok((row, at)) => if !row.error.ok() {
                Err(
                    tape::spec_fail(
                        "a validate_only create of a fresh topic reported "@ + row.error.shown@,
                        at,
                    ),
                )
            } else {
                match flows::spec_create_topic(ctx, tape, at, conn, version, topic, false, 99) {
                    Err(halt) => Err(halt),
                    Ok((row, at)) => Ok((spec_judge_validated(row.error), at)),
                }
            },
        },
    }
}

/// Answers `validate_only` without doing the thing: a real create straight
/// after must still succeed.
pub fn create_topics_validate_only(ctx: &ServerCtx, tape: &Vec<Event>) -> (r: Flow<Verdict>)
    ensures
        tape::ran(r) == spec_create_topics_validate_only(*ctx, tape@),
{
    let ((version, conn, topic), at) = creating(ctx, tape, "validate")?;
    let (row, at) = create_topic_call(ctx, tape, at, conn, version, topic.as_str(), true, 98)?;
    if !row.error.is_ok() {
        return Err(
            fail(
                line("a validate_only create of a fresh topic reported ").lit(
                    row.error.shown.as_str(),
                ).done(),
                at,
            ),
        );
    }
    let (row, at) = create_topic_call(ctx, tape, at, conn, version, topic.as_str(), false, 99)?;
    if row.error.is_ok() {
        Ok((Verdict::Pass, at))
    } else if row.error.code == wire::TOPIC_ALREADY_EXISTS {
        Ok(
            (
                Verdict::Fail {
                    details: String::from_str(
                        "validate_only created the topic: the real create that followed it reported TOPIC_ALREADY_EXISTS",
                    ),
                },
                at,
            ),
        )
    } else {
        Ok(
            (
                Verdict::Fail {
                    details: line("creating the topic after validating it answered ").lit(
                        row.error.shown.as_str(),
                    ).done(),
                },
                at,
            ),
        )
    }
}

/// More replicas than any cluster has brokers.
pub const IMPOSSIBLE_REPLICAS: i16 = 32_767;

/// What is said of a creation with more replicas than there are brokers.
pub open spec fn spec_judge_overreplicated(rows: Seq<CreatedRow>, topic: Seq<char>) -> VerdictView {
    if rows.len() > 0 && !rows[0].error.ok() {
        VerdictView::Pass
    } else {
        VerdictView::Fail(
            "asked for "@ + text::dec(IMPOSSIBLE_REPLICAS as int) + " replicas of "@ + topic
                + " and was told it was created; a caller that asked for a durability level it cannot have should be refused, not given a weaker one under the same name"@,
        )
    }
}

pub open spec fn spec_create_topics_impossible_replication(ctx: ServerCtx, tape: Seq<Event>)
    -> FlowView<VerdictView> {
    match spec_creating(ctx, tape, "overreplicated"@) {
        Err(halt) => Err(halt),
        Ok(((version, conn, topic), at)) => match tape::spec_doing(
            asks::spec_ask_create_topics(
                tape,
                at,
                Label::Final("CreateTopics"@),
                ActionOf::Call {
                    conn,
                    version,
                    correlation: 840,
                    request: RequestOf::CreateTopics {
                        topic,
                        replication_factor: IMPOSSIBLE_REPLICAS,
                        validate_only: false,
                    },
                },
            ),
            "CreateTopics"@,
        ) {
            Err(halt) => Err(halt),
            Ok((rows, at)) => Ok((spec_judge_overreplicated(rows@, topic), at)),
        },
    }
}

/// Refuses a replication factor the cluster cannot satisfy. Any refusal
/// keeps the topic from being created with fewer replicas.
pub fn create_topics_impossible_replication(ctx: &ServerCtx, tape: &Vec<Event>) -> (r: Flow<
    Verdict,
>)
    ensures
        tape::ran(r) == spec_create_topics_impossible_replication(*ctx, tape@),
{
    let ((version, conn, topic), at) = creating(ctx, tape, "overreplicated")?;
    let (rows, at) = doing_ref(
        asks::ask_create_topics(
            tape,
            at,
            Label::Final("CreateTopics"),
            ActionOf::Call {
                conn,
                version,
                correlation: 840,
                request: RequestOf::CreateTopics {
                    topic: topic.clone(),
                    replication_factor: IMPOSSIBLE_REPLICAS,
                    validate_only: false,
                },
            },
        ),
        "CreateTopics",
    )?;
    if rows.len() > 0 && !rows[0].error.is_ok() {
        return Ok((Verdict::Pass, at));
    }
    Ok(
        (
            Verdict::Fail {
                details: line("asked for ").num(IMPOSSIBLE_REPLICAS as i64).lit(
                    " replicas of ",
                ).lit(topic.as_str()).lit(
                    " and was told it was created; a caller that asked for a durability level it cannot have should be refused, not given a weaker one under the same name",
                ).done(),
            },
            at,
        ),
    )
}

/// A sound partition led by nobody the answer knows.
pub open spec fn led_by_stranger(known: Seq<i32>) -> spec_fn(PartitionRow) -> bool {
    |p: PartitionRow| p.error.ok() && !known.contains(p.leader_id)
}

fn first_stranger<'a>(rows: &'a Vec<PartitionRow>, known: &Vec<i32>) -> (r: Option<
    &'a PartitionRow,
>)
    ensures
        find::found(r) == find::first_where(rows@, led_by_stranger(known@)),
{
    let mut i: usize = 0;
    assert(rows@.skip(0) =~= rows@);
    while i < rows.len()
        invariant
            i <= rows@.len(),
            find::first_where(rows@, led_by_stranger(known@)) == find::first_where(
                rows@.skip(i as int),
                led_by_stranger(known@),
            ),
        decreases rows@.len() - i,
    {
        assert(rows@.skip(i as int).skip(1) =~= rows@.skip(i + 1));
        if rows[i].error.is_ok() && !has_i32(known, rows[i].leader_id) {
            return Some(&rows[i]);
        }
        i = i + 1;
    }
    None
}

/// Every sound partition of the topic must be led by a broker the same
/// answer names.
pub open spec fn spec_judge_leaders(answer: MetadataAnswer, topic: Seq<char>) -> VerdictView {
    if answer.brokers@.len() == 0 {
        VerdictView::Skipped(
            "the response names no brokers at all (metadata/basic reports that)"@,
        )
    } else {
        match find::first_where(answer.topics@, find::is_named(topic)) {
            None => VerdictView::Fail(
                "Metadata does not name "@ + topic + ", which was just produced to"@,
            ),
            Some(entry) => if !entry.error.ok() {
                VerdictView::Fail(
                    "Metadata answered "@ + entry.error.shown@ + " for a topic that exists"@,
                )
            } else if entry.partitions@.len() == 0 {
                VerdictView::Fail(topic + " exists but Metadata gives it no partitions"@)
            } else {
                let known = node_ids(answer.brokers@);
                match find::first_where(entry.partitions@, led_by_stranger(known)) {
                    Some(p) => VerdictView::Fail(
                        topic + "["@ + text::dec(p.index as int) + "] names leader "@ + text::dec(
                            p.leader_id as int,
                        ) + " and the response's brokers are "@ + text::int_list(
                            text::ints_of_i32(known),
                        )
                            + "; a client is given a healthy-looking topic it has nowhere to send to"@,
                    ),
                    None => VerdictView::Pass,
                }
            },
        }
    }
}

pub fn judge_leaders(answer: &MetadataAnswer, topic: &str) -> (r: Verdict)
    ensures
        r@ == spec_judge_leaders(*answer, topic@),
{
    if answer.brokers.len() == 0 {
        return Verdict::Skipped {
            reason: String::from_str(
                "the response names no brokers at all (metadata/basic reports that)",
            ),
        };
    }
    let entry = match topic_named(&answer.topics, topic) {
        None => return Verdict::Fail {
            details: line("Metadata does not name ").lit(topic).lit(
                ", which was just produced to",
            ).done(),
        },
        Some(entry) => entry,
    };
    if !entry.error.is_ok() {
        return Verdict::Fail {
            details: line("Metadata answered ").lit(entry.error.shown.as_str()).lit(
                " for a topic that exists",
            ).done(),
        };
    }
    if entry.partitions.len() == 0 {
        return Verdict::Fail {
            details: line(topic).lit(" exists but Metadata gives it no partitions").done(),
        };
    }
    let known = ids_of(&answer.brokers);
    match first_stranger(&entry.partitions, &known) {
        Some(p) => Verdict::Fail {
            details: line(topic).lit("[").num(p.index as i64).lit("] names leader ").num(
                p.leader_id as i64,
            ).lit(" and the response's brokers are ").nums(&known).lit(
                "; a client is given a healthy-looking topic it has nowhere to send to",
            ).done(),
        },
        None => Verdict::Pass,
    }
}

pub open spec fn spec_metadata_leader_is_a_known_broker(ctx: ServerCtx, tape: Seq<Event>)
    -> FlowView<VerdictView> {
    match ctx.spec_version(0, "Metadata"@, METADATA, 1, ctx.schema.metadata.max) {
        Err(halt) => Err(halt),
        Ok(version) => match flows::spec_produce_flow(
            ctx,
            tape,
            0,
            "leaderref"@,
            Addressing::Name,
        ) {
            Err(halt) => Err(halt),
            Ok((produced, at)) => match tape::spec_doing(
                flows::spec_metadata(
                    tape,
                    at,
                    produced.conn,
                    version,
                    Some(produced.topic),
                    910,
                ),
                "Metadata"@,
            ) {
                Err(halt) => Err(halt),
                Ok((answer, at)) => Ok((spec_judge_leaders(answer, produced.topic), at)),
            },
        },
    }
}

/// Names every partition leader in the same answer's broker list.
pub fn metadata_leader_is_a_known_broker(ctx: &ServerCtx, tape: &Vec<Event>) -> (r: Flow<Verdict>)
    ensures
        tape::ran(r) == spec_metadata_leader_is_a_known_broker(*ctx, tape@),
{
    let version: i16 = ctx.version(0, "Metadata", METADATA, 1, ctx.schema.metadata.max)?;
    let (produced, at) = produce_flow(ctx, tape, 0, "leaderref", Addressing::Name)?;
    let (answer, at) = doing_ref(
        metadata_of_topic(tape, at, produced.conn, version, produced.topic.as_str(), 910),
        "Metadata",
    )?;
    Ok((judge_leaders(answer, produced.topic.as_str()), at))
}

/// Asking for the topic's id, from the given time on, three times in all.
pub open spec fn spec_id_asks(
    tape: Seq<Event>,
    at: int,
    conn: usize,
    version: i16,
    topic: Seq<char>,
    asked: int,
    seen: Option<TopicId>,
) -> FlowView<VerdictView>
    decreases 3 - asked,
{
    if asked >= 3 {
        Ok((VerdictView::Pass, at))
    } else {
        match tape::spec_doing(
            flows::spec_metadata(
                tape,
                at,
                conn,
                version,
                Some(topic),
                ctx::spec_correlation(1_320, asked),
            ),
            "Metadata"@,
        ) {
            Err(halt) => Err(halt),
            Ok((answer, at)) => match find::first_where(answer.topics@, find::is_named(topic)) {
                None => Err(
                    tape::spec_fail(
                        "Metadata stopped naming "@ + topic + " between asks"@,
                        at,
                    ),
                ),
                Some(entry) => if entry.topic_id@ == wire::zero_id() {
                    Err(
                        tape::spec_skip(
                            "Metadata v"@ + text::dec(version as int)
                                + " returned no topic id for "@ + topic,
                            at,
                        ),
                    )
                } else {
                    match seen {
                        Some(earlier) => if earlier@ == entry.topic_id@ {
                            spec_id_asks(tape, at, conn, version, topic, asked + 1, seen)
                        } else {
                            Err(
                                tape::spec_fail(
                                    topic + " was "@ + text::hex(earlier@) + " and is now "@
                                        + text::hex(entry.topic_id@)
                                        + "; every id-addressed request already in flight fails with UNKNOWN_TOPIC_ID, which reads as the topic being gone"@,
                                    at,
                                ),
                            )
                        },
                        None => spec_id_asks(
                            tape,
                            at,
                            conn,
                            version,
                            topic,
                            asked + 1,
                            Some(entry.topic_id),
                        ),
                    }
                },
            },
        }
    }
}

pub open spec fn spec_metadata_topic_id_is_stable(ctx: ServerCtx, tape: Seq<Event>) -> FlowView<
    VerdictView,
> {
    match ctx.spec_version(0, "Metadata"@, METADATA, 10, ctx.schema.metadata.max) {
        Err(halt) => Err(halt),
        Ok(version) => match flows::spec_produce_flow(
            ctx,
            tape,
            0,
            "stableid"@,
            Addressing::Name,
        ) {
            Err(halt) => Err(halt),
            Ok((produced, at)) => spec_id_asks(
                tape,
                at,
                produced.conn,
                version,
                produced.topic,
                0,
                None,
            ),
        },
    }
}

/// Reports the same id each time for a topic that has not gone away.
pub fn metadata_topic_id_is_stable(ctx: &ServerCtx, tape: &Vec<Event>) -> (r: Flow<Verdict>)
    ensures
        tape::ran(r) == spec_metadata_topic_id_is_stable(*ctx, tape@),
{
    let version: i16 = ctx.version(0, "Metadata", METADATA, 10, ctx.schema.metadata.max)?;
    let (produced, at) = produce_flow(ctx, tape, 0, "stableid", Addressing::Name)?;
    let mut seen: Option<TopicId> = None;
    let mut here: usize = at;
    let mut asked: u32 = 0;
    while asked < 3
        invariant
            asked <= 3,
            spec_metadata_topic_id_is_stable(*ctx, tape@) == spec_id_asks(
                tape@,
                here as int,
                produced.conn,
                version,
                produced.topic@,
                asked as int,
                seen,
            ),
        decreases 3 - asked,
    {
        let topic = produced.topic.as_str();
        let (answer, next) = doing_ref(
            metadata_of_topic(
                tape,
                here,
                produced.conn,
                version,
                topic,
                correlation(1_320, asked),
            ),
            "Metadata",
        )?;
        let entry = match topic_named(&answer.topics, topic) {
            None => return Err(
                fail(line("Metadata stopped naming ").lit(topic).lit(" between asks").done(), next),
            ),
            Some(entry) => entry,
        };
        if wire::is_zero_id(&entry.topic_id) {
            return Err(
                skip(
                    line("Metadata v").num(version as i64).lit(" returned no topic id for ").lit(
                        topic,
                    ).done(),
                    next,
                ),
            );
        }
        match seen {
            None => {
                seen = Some(entry.topic_id);
            },
            Some(earlier) => {
                if !same_bytes(earlier.as_slice(), entry.topic_id.as_slice()) {
                    return Err(
                        fail(
                            line(topic).lit(" was ").lit(hex16(&earlier).as_str()).lit(
                                " and is now ",
                            ).lit(hex16(&entry.topic_id).as_str()).lit(
                                "; every id-addressed request already in flight fails with UNKNOWN_TOPIC_ID, which reads as the topic being gone",
                            ).done(),
                            next,
                        ),
                    );
                }
            },
        }
        here = next;
        asked = asked + 1;
    }
    Ok((Verdict::Pass, here))
}

/// DeleteTopics moved from a name list to a topics array at this version.
pub const DELETE_TOPICS_BY_STATE: i16 = 6;

/// Whether an entry says that there is no such topic.
pub open spec fn is_gone(entry: TopicRow) -> bool {
    entry.error.code == wire::UNKNOWN_TOPIC_OR_PARTITION || entry.error.code
        == wire::UNKNOWN_TOPIC_ID
}

/// Waiting for a deleted topic to stop being named, from the given attempt
/// on.
pub open spec fn spec_gone_wait(
    ctx: ServerCtx,
    tape: Seq<Event>,
    at: int,
    conn: usize,
    version: i16,
    topic: Seq<char>,
    attempt: int,
    last: Seq<char>,
) -> FlowView<VerdictView>
    decreases ctx.config.spec_settle_attempts() - attempt,
{
    if attempt >= ctx.config.spec_settle_attempts() {
        Ok(
            (
                VerdictView::Fail(
                    topic + " was reported deleted, but Metadata still answers "@ + last
                        + " for it after "@ + text::duration_text(ctx.config.settle_budget.nanos)
                        + "; the deletion was acknowledged without being done"@,
                ),
                at,
            ),
        )
    } else {
        match tape::spec_pause_between(tape, at, attempt) {
            Err(halt) => Err(halt),
            Ok((_, at)) => match tape::spec_doing(
                flows::spec_metadata(
                    tape,
                    at,
                    conn,
                    version,
                    Some(topic),
                    ctx::spec_correlation(810, attempt),
                ),
                "Metadata"@,
            ) {
                Err(halt) => Err(halt),
                Ok((answer, at)) => match find::first_where(
                    answer.topics@,
                    find::is_named(topic),
                ) {
                    None => Ok((VerdictView::Pass, at)),
                    Some(entry) => if is_gone(entry) {
                        Ok((VerdictView::Pass, at))
                    } else {
                        spec_gone_wait(
                            ctx,
                            tape,
                            at,
                            conn,
                            version,
                            topic,
                            attempt + 1,
                            entry.error.shown@,
                        )
                    },
                },
            },
        }
    }
}

/// The check from the moment the delete was answered.
pub open spec fn spec_after_delete(
    ctx: ServerCtx,
    tape: Seq<Event>,
    at: int,
    conn: usize,
    version: i16,
    topic: Seq<char>,
    codes: Seq<ErrorCode>,
) -> FlowView<VerdictView> {
    if codes.len() > 0 && codes[0].code == wire::TOPIC_DELETION_DISABLED {
        Err(tape::spec_skip("the subject has topic deletion disabled"@, at))
    } else if codes.len() > 0 && !codes[0].ok() {
        Err(tape::spec_fail("deleting "@ + topic + " answered "@ + codes[0].shown@, at))
    } else {
        spec_gone_wait(ctx, tape, at, conn, version, topic, 0, ""@)
    }
}

fn after_delete(
    ctx: &ServerCtx,
    tape: &Vec<Event>,
    at: usize,
    conn: usize,
    version: i16,
    topic: &str,
    codes: &Vec<ErrorCode>,
) -> (r: Flow<Verdict>)
    ensures
        tape::ran(r) == spec_after_delete(
            *ctx,
            tape@,
            at as int,
            conn,
            version,
            topic@,
            codes@,
        ),
{
    if codes.len() > 0 && codes[0].code == wire::TOPIC_DELETION_DISABLED {
        return Err(skip(String::from_str("the subject has topic deletion disabled"), at));
    }
    if codes.len() > 0 && !codes[0].is_ok() {
        return Err(
            fail(
                line("deleting ").lit(topic).lit(" answered ").lit(codes[0].shown.as_str()).done(),
                at,
            ),
        );
    }
    let attempts: u32 = ctx.config.settle_attempts();
    let mut last: String = String::from_str("");
    let mut here: usize = at;
    let mut attempt: u32 = 0;
    while attempt < attempts
        invariant
            attempt <= attempts,
            attempts == ctx.config.spec_settle_attempts(),
            spec_after_delete(*ctx, tape@, at as int, conn, version, topic@, codes@)
                == spec_gone_wait(
                *ctx,
                tape@,
                here as int,
                conn,
                version,
                topic@,
                attempt as int,
                last@,
            ),
        decreases attempts - attempt,
    {
        let (_, next) = pause_between(tape, here, attempt)?;
        let (answer, next) = doing_ref(
            metadata_of_topic(tape, next, conn, version, topic, correlation(810, attempt)),
            "Metadata",
        )?;
        match topic_named(&answer.topics, topic) {
            None => return Ok((Verdict::Pass, next)),
            Some(entry) => {
                if entry.error.code == wire::UNKNOWN_TOPIC_OR_PARTITION || entry.error.code
                    == wire::UNKNOWN_TOPIC_ID {
                    return Ok((Verdict::Pass, next));
                }
                last = entry.error.shown.clone();
            },
        }
        here = next;
        attempt = attempt + 1;
    }
    Ok(
        (
            Verdict::Fail {
                details: line(topic).lit(
                    " was reported deleted, but Metadata still answers ",
                ).lit(last.as_str()).lit(" for it after ").wait(
                    ctx.config.settle_budget.nanos,
                ).lit("; the deletion was acknowledged without being done").done(),
            },
            here,
        ),
    )
}

pub open spec fn spec_delete_topics_removes_the_topic(ctx: ServerCtx, tape: Seq<Event>)
    -> FlowView<VerdictView> {
    match ctx.spec_version(
        0,
        "DeleteTopics"@,
        DELETE_TOPICS,
        ctx.schema.delete_topics.min,
        ctx.schema.delete_topics.max,
    ) {
        Err(halt) => Err(halt),
        Ok(delete_version) => match ctx.spec_version(
            0,
            "Metadata"@,
            METADATA,
            1,
            ctx.schema.metadata.max,
        ) {
            Err(halt) => Err(halt),
            Ok(version) => match flows::spec_produce_flow(
                ctx,
                tape,
                0,
                "delete"@,
                Addressing::Name,
            ) {
                Err(halt) => Err(halt),
                Ok((produced, at)) => match tape::spec_doing(
                    flows::spec_connect_to_controller(
                        ctx,
                        tape,
                        at,
                        produced.conn,
                        version,
                        861,
                    ),
                    "locating the controller"@,
                ) {
                    Err(halt) => Err(halt),
                    Ok((admin, at)) => match tape::spec_doing(
                        asks::spec_ask_delete_topics(
                            tape,
                            at,
                            Label::Final("DeleteTopics"@),
                            ActionOf::Call {
                                conn: admin,
                                version: delete_version,
                                correlation: 800,
                                request: RequestOf::DeleteTopics {
                                    topic: produced.topic,
                                    by_state: delete_version >= DELETE_TOPICS_BY_STATE,
                                },
                            },
                        ),
                        "DeleteTopics"@,
                    ) {
                        Err(halt) => Err(halt),
                        Ok((codes, at)) => spec_after_delete(
                            ctx,
                            tape,
                            at,
                            produced.conn,
                            version,
                            produced.topic,
                            codes@,
                        ),
                    },
                },
            },
        },
    }
}

/// A topic it reports deleted stops existing.
pub fn delete_topics_removes_the_topic(ctx: &ServerCtx, tape: &Vec<Event>) -> (r: Flow<Verdict>)
    ensures
        tape::ran(r) == spec_delete_topics_removes_the_topic(*ctx, tape@),
{
    let delete_version: i16 = ctx.version(
        0,
        "DeleteTopics",
        DELETE_TOPICS,
        ctx.schema.delete_topics.min,
        ctx.schema.delete_topics.max,
    )?;
    let version: i16 = ctx.version(0, "Metadata", METADATA, 1, ctx.schema.metadata.max)?;
    let (produced, at) = produce_flow(ctx, tape, 0, "delete", Addressing::Name)?;
    let (admin, at) = doing(
        connect_to_controller(ctx, tape, at, produced.conn, version, 861),
        "locating the controller",
    )?;
    let (codes, at) = doing_ref(
        asks::ask_delete_topics(
            tape,
            at,
            Label::Final("DeleteTopics"),
            ActionOf::Call {
                conn: admin,
                version: delete_version,
                correlation: 800,
                request: RequestOf::DeleteTopics {
                    topic: produced.topic.clone(),
                    by_state: delete_version >= DELETE_TOPICS_BY_STATE,
                },
            },
        ),
        "DeleteTopics",
    )?;
    after_delete(ctx, tape, at, produced.conn, version, produced.topic.as_str(), codes)
}

} // verus!

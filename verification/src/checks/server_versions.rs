//! The version sweep: every version a server advertises must be one it can
//! speak. Only the shape of the answers is judged; an error code is a fine
//! answer.

use vstd::prelude::*;
use vstd::string::*;

use crate::checks::asks;
use crate::checks::batch;
use crate::checks::batch::ProduceStampOf;
use crate::checks::ctx;
use crate::checks::ctx::ServerCtx;
use crate::checks::flows;
use crate::checks::flows::{
    Addressing, ProducedTopic, ProducedView, FETCH_ID_MIN, PRODUCE_NAME_MAX,
};
use crate::checks::group_flows;
use crate::checks::tape;
use crate::checks::tape::{
    doing, ActionOf, Event, Flow, FlowView, Halt, HaltView, Label,
};
use crate::checks::txn_flows;
use crate::text;
use crate::text::{join, line, Notes};
use crate::wire;
use crate::wire::{
    RequestOf, TopicId, TopicOf, CREATE_TOPICS, FETCH, OFFSETS_BY_TOPIC_ID, OFFSET_COMMIT, PRODUCE,
    READ_UNCOMMITTED,
};
use crate::{Verdict, VerdictView};

verus! {

/// The first Produce version whose record sets are batches.
pub const PRODUCE_RECORD_BATCH_MIN: i16 = 3;

/// What the sweep has come to: what could not be spoken, and what was asked.
#[derive(Debug)]
pub struct Sweep {
    pub failures: Notes,
    pub swept: Notes,
}

#[verifier::ext_equal]
pub struct SweepView {
    pub failures: Seq<Seq<char>>,
    pub swept: Seq<Seq<char>>,
}

impl View for Sweep {
    type V = SweepView;

    open spec fn view(&self) -> SweepView {
        SweepView { failures: self.failures@, swept: self.swept@ }
    }
}

impl SweepView {
    /// One more api swept, with what it could not speak.
    pub open spec fn spec_with(self, failures: Seq<Seq<char>>, label: Seq<char>) -> SweepView {
        SweepView { failures: self.failures + failures, swept: self.swept.push(label) }
    }
}

impl Sweep {
    pub fn with(self, failures: Notes, label: String) -> (r: Sweep)
        ensures
            r@ == self@.spec_with(failures@, label@),
    {
        let mut swept = self.swept;
        swept.push(label);
        Sweep { failures: self.failures.followed_by(failures), swept }
    }
}

/// The correlation id of one exchange of the sweep.
pub open spec fn spec_sweep_correlation(base: i32, version: i16, step: i32) -> i32 {
    (base + version * step) as i32
}

fn sweep_correlation(base: i32, version: i16, step: i32) -> (r: i32)
    requires
        0 <= base <= 2_000,
        1 <= step <= 4,
    ensures
        r == spec_sweep_correlation(base, version, step),
{
    let version: i32 = version as i32;
    assert(-200_000 <= version * step <= 200_000) by (nonlinear_arith)
        requires
            -32_768 <= version <= 32_767,
            1 <= step <= 4,
    ;
    base + version * step
}

/// Producing at the versions from the `i`th on.
pub open spec fn spec_sweep_produce(
    tape: Seq<Event>,
    at: int,
    addr: Seq<char>,
    topic: Seq<char>,
    versions: Seq<i16>,
    i: int,
    failures: Seq<Seq<char>>,
) -> FlowView<Seq<Seq<char>>>
    decreases versions.len() - i,
{
    if i >= versions.len() {
        Ok((failures, at))
    } else {
        let version = versions[i];
        match tape::spec_connect(tape, at, addr) {
            Err(halt) => Err(halt),
            Ok((conn, at)) => match txn_flows::spec_produce_stamped(
                tape,
                at,
                conn,
                version,
                batch::spec_plain_stamp(),
                topic,
                spec_sweep_correlation(1_600, version, 1),
            ) {
                Ok((_, at)) => spec_sweep_produce(tape, at, addr, topic, versions, i + 1, failures),
                Err(HaltView::Broke(e, at)) => spec_sweep_produce(
                        tape,
                        at,
                        addr,
                        topic,
                        versions,
                        i + 1,
                        failures.push(
                            "Produce v"@ + text::dec(version as int) + ": "@ + e.spec_details(),
                        ),
                    ),
                Err(halt) => Err(halt),
            },
        }
    }
}

/// Produces at every version. Each gets a fresh connection: a server that
/// refuses a version by closing it would otherwise condemn every version
/// after.
fn sweep_produce(
    tape: &Vec<Event>,
    at: usize,
    addr: &str,
    topic: &str,
    versions: &Vec<i16>,
) -> (r: Flow<Notes>)
    ensures
        tape::ran(r) == spec_sweep_produce(
            tape@,
            at as int,
            addr@,
            topic@,
            versions@,
            0,
            Seq::empty(),
        ),
{
    let bound: usize = versions.len();
    let mut failures: Notes = Notes::none();
    let mut here: usize = at;
    let mut i: usize = 0;
    while i < bound
        invariant
            i <= bound,
            bound == versions@.len(),
            spec_sweep_produce(tape@, at as int, addr@, topic@, versions@, 0, Seq::empty()) == spec_sweep_produce(
                tape@,
                here as int,
                addr@,
                topic@,
                versions@,
                i as int,
                failures@,
            ),
        decreases bound - i,
    {
        let version: i16 = versions[i];
        let (conn, next) = tape::connect(tape, here, addr)?;
        match txn_flows::produce_stamped(
            tape,
            next,
            conn,
            version,
            ProduceStampOf::plain(),
            topic,
            sweep_correlation(1_600, version, 1),
        ) {
            Ok((_, next)) => {
                here = next;
                i = i + 1;
            },
            Err(Halt::Broke(e, next)) => {
                failures.push(
                    line("Produce v").num(version as i64).lit(": ").lit(e.details().as_str())
                        .done(),
                );
                here = next;
                i = i + 1;
            },
            Err(halt) => return Err(halt),
        }
    }
    Ok((failures, here))
}

pub open spec fn spec_sweep_fetch_by_id(
    tape: Seq<Event>,
    at: int,
    conn: usize,
    version: i16,
    topic_id: TopicId,
    correlation: i32,
) -> FlowView<()> {
    match asks::spec_ask_fetch(
        tape,
        at,
        Label::Named("Fetch"@),
        ActionOf::Call {
            conn,
            version,
            correlation,
            request: RequestOf::Fetch {
                topic: TopicOf::Id(topic_id),
                partition: 0,
                offset: 0,
                max_wait_ms: 500,
                min_bytes: 0,
                max_bytes: 4_194_304,
                isolation_level: READ_UNCOMMITTED,
            },
        },
    ) {
        Err(halt) => Err(halt),
        Ok((_, at)) => Ok(((), at)),
    }
}

/// A topic-id-addressed fetch, decoded and thrown away.
fn sweep_fetch_by_id(
    tape: &Vec<Event>,
    at: usize,
    conn: usize,
    version: i16,
    topic_id: TopicId,
    correlation: i32,
) -> (r: Flow<()>)
    ensures
        tape::ran(r) == spec_sweep_fetch_by_id(
            tape@,
            at as int,
            conn,
            version,
            topic_id,
            correlation,
        ),
{
    let (_, at) = asks::ask_fetch(
        tape,
        at,
        Label::Named("Fetch"),
        ActionOf::Call {
            conn,
            version,
            correlation,
            request: RequestOf::Fetch {
                topic: TopicOf::Id(topic_id),
                partition: 0,
                offset: 0,
                max_wait_ms: 500,
                min_bytes: 0,
                max_bytes: 4_194_304,
                isolation_level: READ_UNCOMMITTED,
            },
        },
    )?;
    Ok(((), at))
}

/// Fetching by id at the versions from the `i`th on.
pub open spec fn spec_sweep_fetch(
    tape: Seq<Event>,
    at: int,
    addr: Seq<char>,
    topic_id: TopicId,
    versions: Seq<i16>,
    i: int,
    failures: Seq<Seq<char>>,
) -> FlowView<Seq<Seq<char>>>
    decreases versions.len() - i,
{
    if i >= versions.len() {
        Ok((failures, at))
    } else {
        let version = versions[i];
        match tape::spec_connect(tape, at, addr) {
            Err(halt) => Err(halt),
            Ok((conn, at)) => match spec_sweep_fetch_by_id(
                tape,
                at,
                conn,
                version,
                topic_id,
                spec_sweep_correlation(1_640, version, 1),
            ) {
                Ok((_, at)) => {
                    spec_sweep_fetch(tape, at, addr, topic_id, versions, i + 1, failures)
                },
                Err(HaltView::Broke(e, at)) => spec_sweep_fetch(
                        tape,
                        at,
                        addr,
                        topic_id,
                        versions,
                        i + 1,
                        failures.push(
                            "Fetch v"@ + text::dec(version as int) + " (by id): "@
                                + e.spec_details(),
                        ),
                    ),
                Err(halt) => Err(halt),
            },
        }
    }
}

/// Fetches by id at every version.
fn sweep_fetch(
    tape: &Vec<Event>,
    at: usize,
    addr: &str,
    topic_id: TopicId,
    versions: &Vec<i16>,
) -> (r: Flow<Notes>)
    ensures
        tape::ran(r) == spec_sweep_fetch(
            tape@,
            at as int,
            addr@,
            topic_id,
            versions@,
            0,
            Seq::empty(),
        ),
{
    let bound: usize = versions.len();
    let mut failures: Notes = Notes::none();
    let mut here: usize = at;
    let mut i: usize = 0;
    while i < bound
        invariant
            i <= bound,
            bound == versions@.len(),
            spec_sweep_fetch(tape@, at as int, addr@, topic_id, versions@, 0, Seq::empty()) == spec_sweep_fetch(
                tape@,
                here as int,
                addr@,
                topic_id,
                versions@,
                i as int,
                failures@,
            ),
        decreases bound - i,
    {
        let version: i16 = versions[i];
        let (conn, next) = tape::connect(tape, here, addr)?;
        match sweep_fetch_by_id(
            tape,
            next,
            conn,
            version,
            topic_id,
            sweep_correlation(1_640, version, 1),
        ) {
            Ok((_, next)) => {
                here = next;
                i = i + 1;
            },
            Err(Halt::Broke(e, next)) => {
                failures.push(
                    line("Fetch v").num(version as i64).lit(" (by id): ").lit(e.details().as_str())
                        .done(),
                );
                here = next;
                i = i + 1;
            },
            Err(halt) => return Err(halt),
        }
    }
    Ok((failures, here))
}

pub open spec fn spec_sweep_offset_commit(
    tape: Seq<Event>,
    at: int,
    conn: usize,
    version: i16,
    group: Seq<char>,
    topic: Seq<char>,
    topic_id: TopicId,
    correlation: i32,
) -> FlowView<()> {
    match asks::spec_ask_offset_commit(
        tape,
        at,
        Label::Named("OffsetCommit"@),
        ActionOf::Call {
            conn,
            version,
            correlation,
            request: RequestOf::OffsetCommit {
                group: group,
                topic: group_flows::spec_offsets_topic(version, topic, topic_id),
                offset: 1,
                metadata: None,
            },
        },
    ) {
        Err(halt) => Err(halt),
        Ok((_, at)) => Ok(((), at)),
    }
}

/// An offset commit, decoded and thrown away.
fn sweep_offset_commit(
    tape: &Vec<Event>,
    at: usize,
    conn: usize,
    version: i16,
    group: &String,
    topic: &str,
    topic_id: TopicId,
    correlation: i32,
) -> (r: Flow<()>)
    ensures
        tape::ran(r) == spec_sweep_offset_commit(
            tape@,
            at as int,
            conn,
            version,
            group@,
            topic@,
            topic_id,
            correlation,
        ),
{
    let (_, at) = asks::ask_offset_commit(
        tape,
        at,
        Label::Named("OffsetCommit"),
        ActionOf::Call {
            conn,
            version,
            correlation,
            request: RequestOf::OffsetCommit {
                group: group.clone(),
                topic: group_flows::offsets_topic(version, topic, topic_id),
                offset: 1,
                metadata: None,
            },
        },
    )?;
    Ok(((), at))
}

/// Committing at the versions from the `i`th on.
pub open spec fn spec_sweep_commit(
    ctx: ServerCtx,
    tape: Seq<Event>,
    at: int,
    group: Seq<char>,
    topic: Seq<char>,
    topic_id: TopicId,
    versions: Seq<i16>,
    i: int,
    failures: Seq<Seq<char>>,
) -> FlowView<Seq<Seq<char>>>
    decreases versions.len() - i,
{
    if i >= versions.len() {
        Ok((failures, at))
    } else {
        let version = versions[i];
        match tape::spec_doing(
            group_flows::spec_coordinator_conn(ctx, tape, at, group),
            "locating the group coordinator"@,
        ) {
            Err(halt) => Err(halt),
            Ok((conn, at)) => match spec_sweep_offset_commit(
                tape,
                at,
                conn,
                version,
                group,
                topic,
                topic_id,
                spec_sweep_correlation(1_680, version, 1),
            ) {
                Ok((_, at)) => spec_sweep_commit(
                        ctx,
                        tape,
                        at,
                        group,
                        topic,
                        topic_id,
                        versions,
                        i + 1,
                        failures,
                    ),
                Err(HaltView::Broke(e, at)) => spec_sweep_commit(
                        ctx,
                        tape,
                        at,
                        group,
                        topic,
                        topic_id,
                        versions,
                        i + 1,
                        failures.push(
                            "OffsetCommit v"@ + text::dec(version as int) + ": "@
                                + e.spec_details(),
                        ),
                    ),
                Err(halt) => Err(halt),
            },
        }
    }
}

/// Commits at every version, to the group's coordinator.
fn sweep_commit(
    ctx: &ServerCtx,
    tape: &Vec<Event>,
    at: usize,
    group: &String,
    topic: &str,
    topic_id: TopicId,
    versions: &Vec<i16>,
) -> (r: Flow<Notes>)
    ensures
        tape::ran(r) == spec_sweep_commit(
            *ctx,
            tape@,
            at as int,
            group@,
            topic@,
            topic_id,
            versions@,
            0,
            Seq::empty(),
        ),
{
    let bound: usize = versions.len();
    let mut failures: Notes = Notes::none();
    let mut here: usize = at;
    let mut i: usize = 0;
    while i < bound
        invariant
            i <= bound,
            bound == versions@.len(),
            spec_sweep_commit(*ctx, tape@, at as int, group@, topic@, topic_id, versions@, 0, Seq::empty()) == spec_sweep_commit(
                *ctx,
                tape@,
                here as int,
                group@,
                topic@,
                topic_id,
                versions@,
                i as int,
                failures@,
            ),
        decreases bound - i,
    {
        let version: i16 = versions[i];
        let (conn, next) = doing(
            group_flows::coordinator_conn(ctx, tape, here, group.as_str()),
            "locating the group coordinator",
        )?;
        match sweep_offset_commit(
            tape,
            next,
            conn,
            version,
            group,
            topic,
            topic_id,
            sweep_correlation(1_680, version, 1),
        ) {
            Ok((_, next)) => {
                here = next;
                i = i + 1;
            },
            Err(Halt::Broke(e, next)) => {
                failures.push(
                    line("OffsetCommit v").num(version as i64).lit(": ").lit(e.details().as_str())
                        .done(),
                );
                here = next;
                i = i + 1;
            },
            Err(halt) => return Err(halt),
        }
    }
    Ok((failures, here))
}

/// Creating at the versions from the `i`th on.
pub open spec fn spec_sweep_create(
    ctx: ServerCtx,
    tape: Seq<Event>,
    at: int,
    versions: Seq<i16>,
    i: int,
    failures: Seq<Seq<char>>,
) -> FlowView<Seq<Seq<char>>>
    decreases versions.len() - i,
{
    if i >= versions.len() {
        Ok((failures, at))
    } else {
        let version = versions[i];
        match tape::spec_connect(tape, at, ctx.addr@) {
            Err(halt) => Err(halt),
            Ok((conn, at)) => {
                let tag = "sweepct"@ + text::dec(version as int);
                match ctx::spec_fresh_topic(ctx, tape, at, tag) {
                    Err(halt) => Err(halt),
                    Ok((name, at)) => match flows::spec_create_topic(
                        ctx,
                        tape,
                        at,
                        conn,
                        version,
                        name,
                        true,
                        spec_sweep_correlation(1_720, version, 4),
                    ) {
                        Ok((_, at)) => spec_sweep_create(ctx, tape, at, versions, i + 1, failures),
                        Err(HaltView::Broke(e, at)) => spec_sweep_create(
                                ctx,
                                tape,
                                at,
                                versions,
                                i + 1,
                                failures.push(
                                    "CreateTopics v"@ + text::dec(version as int) + ": "@
                                        + e.spec_details(),
                                ),
                            ),
                        Err(halt) => Err(halt),
                    },
                }
            },
        }
    }
}

/// Asks for a topic not to be created, at every version. The oldest has no
/// way to say so and really creates, hence a fresh name each time.
fn sweep_create(
    ctx: &ServerCtx,
    tape: &Vec<Event>,
    at: usize,
    versions: &Vec<i16>,
) -> (r: Flow<Notes>)
    ensures
        tape::ran(r) == spec_sweep_create(*ctx, tape@, at as int, versions@, 0, Seq::empty()),
{
    let bound: usize = versions.len();
    let mut failures: Notes = Notes::none();
    let mut here: usize = at;
    let mut i: usize = 0;
    while i < bound
        invariant
            i <= bound,
            bound == versions@.len(),
            spec_sweep_create(*ctx, tape@, at as int, versions@, 0, Seq::empty()) == spec_sweep_create(
                *ctx,
                tape@,
                here as int,
                versions@,
                i as int,
                failures@,
            ),
        decreases bound - i,
    {
        let version: i16 = versions[i];
        let (conn, next) = tape::connect(tape, here, ctx.addr.as_str())?;
        let tag = line("sweepct").num(version as i64).done();
        let (name, next) = ctx::fresh_topic(ctx, tape, next, tag.as_str())?;
        match flows::create_topic_call(
            ctx,
            tape,
            next,
            conn,
            version,
            name.as_str(),
            true,
            sweep_correlation(1_720, version, 4),
        ) {
            Ok((_, next)) => {
                here = next;
                i = i + 1;
            },
            Err(Halt::Broke(e, next)) => {
                failures.push(
                    line("CreateTopics v").num(version as i64).lit(": ").lit(e.details().as_str())
                        .done(),
                );
                here = next;
                i = i + 1;
            },
            Err(halt) => return Err(halt),
        }
    }
    Ok((failures, here))
}

pub open spec fn spec_produce_section(
    ctx: ServerCtx,
    tape: Seq<Event>,
    at: int,
    produced: ProducedView,
    sweep: SweepView,
) -> FlowView<SweepView> {
    match ctx.spec_pick_all("Produce"@, PRODUCE, PRODUCE_RECORD_BATCH_MIN, PRODUCE_NAME_MAX) {
        Err(_) => Ok((sweep, at)),
        Ok(versions) => match spec_sweep_produce(
                tape,
                at,
                produced.addr,
                produced.topic,
                versions,
                0,
                Seq::empty(),
            ) {
                Err(halt) => Err(halt),
                Ok((failures, at)) => Ok((sweep.spec_with(failures, "Produce "@ + ctx::spec_span(versions)), at)),
            },
    }
}

/// Sweeps Produce by name; the id-addressed version has a check of its own.
fn produce_section(
    ctx: &ServerCtx,
    tape: &Vec<Event>,
    at: usize,
    produced: &ProducedTopic,
    sweep: Sweep,
) -> (r: Flow<Sweep>)
    ensures
        tape::ran(r) == spec_produce_section(*ctx, tape@, at as int, produced@, sweep@),
{
    match ctx.versions_of(PRODUCE, "Produce", PRODUCE_RECORD_BATCH_MIN, PRODUCE_NAME_MAX) {
        Err(_) => {
            Ok((sweep, at))
        },
        Ok(versions) => {
            let (failures, at) = sweep_produce(tape, at, produced.addr.as_str(), produced.topic.as_str(), &versions)?;
            Ok(
                (
                    sweep.with(
                        failures,
                        line("Produce ").lit(ctx::span(&versions).as_str()).done(),
                    ),
                    at,
                ),
            )
        },
    }
}

pub open spec fn spec_fetch_section(
    ctx: ServerCtx,
    tape: Seq<Event>,
    at: int,
    produced: ProducedView,
    sweep: SweepView,
) -> FlowView<SweepView> {
    if produced.topic_id@ == wire::zero_id() {
        Ok((sweep, at))
    } else {
        match ctx.spec_pick_all("Fetch"@, FETCH, FETCH_ID_MIN, ctx.schema.fetch.max) {
            Err(_) => Ok((sweep, at)),
            Ok(versions) => match spec_sweep_fetch(
                    tape,
                    at,
                    produced.addr,
                    produced.topic_id,
                    versions,
                    0,
                    Seq::empty(),
                ) {
                    Err(halt) => Err(halt),
                    Ok((failures, at)) => Ok((sweep.spec_with(failures, "Fetch-by-id "@ + ctx::spec_span(versions)), at)),
                },
        }
    }
}

/// Sweeps Fetch by id, where the topic has one.
fn fetch_section(
    ctx: &ServerCtx,
    tape: &Vec<Event>,
    at: usize,
    produced: &ProducedTopic,
    sweep: Sweep,
) -> (r: Flow<Sweep>)
    ensures
        tape::ran(r) == spec_fetch_section(*ctx, tape@, at as int, produced@, sweep@),
{
    if wire::is_zero_id(&produced.topic_id) {
        return Ok((sweep, at));
    }
    match ctx.versions_of(FETCH, "Fetch", FETCH_ID_MIN, ctx.schema.fetch.max) {
        Err(_) => {
            Ok((sweep, at))
        },
        Ok(versions) => {
            let (failures, at) = sweep_fetch(tape, at, produced.addr.as_str(), produced.topic_id, &versions)?;
            Ok(
                (
                    sweep.with(
                        failures,
                        line("Fetch-by-id ").lit(ctx::span(&versions).as_str()).done(),
                    ),
                    at,
                ),
            )
        },
    }
}

/// The newest OffsetCommit version that can be sent for the topic.
pub open spec fn spec_commit_max(ctx: ServerCtx, topic_id: TopicId) -> i16 {
    if topic_id@ == wire::zero_id() {
        (OFFSETS_BY_TOPIC_ID - 1) as i16
    } else {
        ctx.schema.offset_commit.max
    }
}

fn commit_max(ctx: &ServerCtx, topic_id: &TopicId) -> (r: i16)
    ensures
        r == spec_commit_max(*ctx, *topic_id),
{
    if wire::is_zero_id(topic_id) {
        OFFSETS_BY_TOPIC_ID - 1
    } else {
        ctx.schema.offset_commit.max
    }
}

pub open spec fn spec_commit_section(
    ctx: ServerCtx,
    tape: Seq<Event>,
    at: int,
    produced: ProducedView,
    sweep: SweepView,
) -> FlowView<SweepView> {
    let group = ctx.spec_check_group("sweep"@);
    match ctx.spec_pick_all(
        "OffsetCommit"@,
        OFFSET_COMMIT,
        ctx.schema.offset_commit.min,
        spec_commit_max(ctx, produced.topic_id),
    ) {
        Err(_) => Ok((sweep, at)),
        Ok(versions) => match spec_sweep_commit(
                ctx,
                tape,
                at,
                group,
                produced.topic,
                produced.topic_id,
                versions,
                0,
                Seq::empty(),
            ) {
                Err(halt) => Err(halt),
                Ok((failures, at)) => Ok((sweep.spec_with(failures, "OffsetCommit "@ + ctx::spec_span(versions)), at)),
            },
    }
}

/// Sweeps OffsetCommit.
fn commit_section(
    ctx: &ServerCtx,
    tape: &Vec<Event>,
    at: usize,
    produced: &ProducedTopic,
    sweep: Sweep,
) -> (r: Flow<Sweep>)
    ensures
        tape::ran(r) == spec_commit_section(*ctx, tape@, at as int, produced@, sweep@),
{
    let group = ctx.check_group("sweep");
    match ctx.versions_of(
        OFFSET_COMMIT,
        "OffsetCommit",
        ctx.schema.offset_commit.min,
        commit_max(ctx, &produced.topic_id),
    ) {
        Err(_) => {
            Ok((sweep, at))
        },
        Ok(versions) => {
            let (failures, at) = sweep_commit(
                ctx,
                tape,
                at,
                &group,
                produced.topic.as_str(),
                produced.topic_id,
                &versions,
            )?;
            Ok(
                (
                    sweep.with(
                        failures,
                        line("OffsetCommit ").lit(ctx::span(&versions).as_str()).done(),
                    ),
                    at,
                ),
            )
        },
    }
}

pub open spec fn spec_create_section(
    ctx: ServerCtx,
    tape: Seq<Event>,
    at: int,
    sweep: SweepView,
) -> FlowView<SweepView> {
    match ctx.spec_pick_all(
        "CreateTopics"@,
        CREATE_TOPICS,
        ctx.schema.create_topics.min,
        ctx.schema.create_topics.max,
    ) {
        Err(_) => Ok((sweep, at)),
        Ok(versions) => match spec_sweep_create(
                ctx,
                tape,
                at,
                versions,
                0,
                Seq::empty(),
            ) {
                Err(halt) => Err(halt),
                Ok((failures, at)) => Ok((sweep.spec_with(failures, "CreateTopics "@ + ctx::spec_span(versions)), at)),
            },
    }
}

/// Sweeps CreateTopics.
fn create_section(
    ctx: &ServerCtx,
    tape: &Vec<Event>,
    at: usize,
    sweep: Sweep,
) -> (r: Flow<Sweep>)
    ensures
        tape::ran(r) == spec_create_section(*ctx, tape@, at as int, sweep@),
{
    match ctx.versions_of(
        CREATE_TOPICS,
        "CreateTopics",
        ctx.schema.create_topics.min,
        ctx.schema.create_topics.max,
    ) {
        Err(_) => {
            Ok((sweep, at))
        },
        Ok(versions) => {
            let (failures, at) = sweep_create(ctx, tape, at, &versions)?;
            Ok(
                (
                    sweep.with(
                        failures,
                        line("CreateTopics ").lit(ctx::span(&versions).as_str()).done(),
                    ),
                    at,
                ),
            )
        },
    }
}

/// What the sweep comes to.
pub open spec fn spec_judge_sweep(sweep: SweepView) -> VerdictView {
    if sweep.swept.len() == 0 {
        VerdictView::Skipped("the subject advertises none of the apis this sweeps"@)
    } else if sweep.failures.len() == 0 {
        VerdictView::Pass
    } else {
        VerdictView::Fail(
            ""@ + text::dec(sweep.failures.len() as int)
                + " advertised version(s) could not be spoken. Swept "@ + text::joined(
                sweep.swept,
                ", "@,
            ) + ". "@ + text::joined(sweep.failures, "; "@),
        )
    }
}

pub fn judge_sweep(sweep: &Sweep) -> (r: Verdict)
    ensures
        r@ == spec_judge_sweep(sweep@),
{
    if sweep.swept.0.len() == 0 {
        return Verdict::Skipped {
            reason: String::from_str("the subject advertises none of the apis this sweeps"),
        };
    }
    if sweep.failures.0.len() == 0 {
        return Verdict::Pass;
    }
    Verdict::Fail {
        details: line("").count(sweep.failures.0.len() as u128).lit(
            " advertised version(s) could not be spoken. Swept ",
        ).lit(join(&sweep.swept.0, ", ").as_str()).lit(". ").lit(
            join(&sweep.failures.0, "; ").as_str(),
        ).done(),
    }
}

fn empty_sweep() -> (r: Sweep)
    ensures
        r@ == spec_empty_sweep(),
{
    Sweep { failures: Notes::none(), swept: Notes::none() }
}

pub open spec fn spec_empty_sweep() -> SweepView {
    SweepView { failures: Seq::empty(), swept: Seq::empty() }
}

pub open spec fn spec_versions_advertised_are_speakable(
    ctx: ServerCtx,
    tape: Seq<Event>,
) -> FlowView<VerdictView> {
    match flows::spec_produce_flow(
        ctx,
        tape,
        0,
        "sweep"@,
        Addressing::Name,
    ) {
        Err(halt) => Err(halt),
        Ok((produced, at)) => match spec_produce_section(
            ctx,
            tape,
            at,
            produced,
            spec_empty_sweep(),
        ) {
            Err(halt) => Err(halt),
            Ok((sweep, at)) => match spec_fetch_section(ctx, tape, at, produced, sweep) {
                Err(halt) => Err(halt),
                Ok((sweep, at)) => match spec_commit_section(ctx, tape, at, produced, sweep) {
                    Err(halt) => Err(halt),
                    Ok((sweep, at)) => match spec_create_section(ctx, tape, at, sweep) {
                        Err(halt) => Err(halt),
                        Ok((sweep, at)) => Ok((spec_judge_sweep(sweep), at)),
                    },
                },
            },
        },
    }
}

/// Speaks every version it advertises. The failure lists every one that it
/// cannot, so that one and the same version failing everywhere can be told
/// from one that fails here.
pub fn versions_advertised_are_speakable(
    ctx: &ServerCtx,
    tape: &Vec<Event>,
) -> (r: Flow<Verdict>)
    ensures
        tape::ran(r) == spec_versions_advertised_are_speakable(*ctx, tape@),
{
    let (produced, at) = flows::produce_flow(ctx, tape, 0, "sweep", Addressing::Name)?;
    let (sweep, at) = produce_section(ctx, tape, at, &produced, empty_sweep())?;
    let (sweep, at) = fetch_section(ctx, tape, at, &produced, sweep)?;
    let (sweep, at) = commit_section(ctx, tape, at, &produced, sweep)?;
    let (sweep, at) = create_section(ctx, tape, at, sweep)?;
    Ok((judge_sweep(&sweep), at))
}

} // verus!

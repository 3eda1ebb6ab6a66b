//! The steps that checks have in common: finding leaders, controllers and
//! coordinators, and writing the probe batch to a fresh topic.

use vstd::prelude::*;
use vstd::string::*;

use crate::checks::asks;
use crate::checks::ctx;
use crate::checks::ctx::{correlation, fresh_topic, ServerCtx};
use crate::checks::find;
use crate::checks::find::{controller_address, first, first_row, leader_address};
use crate::checks::tape;
use crate::checks::tape::{
    connect, copy_bytes, doing, doing_ref, encode, fail, pause, pause_between, skip, violation,
    ActionOf, BatchStamp, Event, Flow, FlowView, Label,
};
use crate::text;
use crate::text::line;
use crate::wire;
use crate::wire::{
    CreatedRow, MetadataAnswer, RequestOf, TopicId, TopicOf, CREATE_TOPICS, METADATA, PRODUCE,
};

verus! {

/// The newest name-addressed Produce version; the next one switches to ids.
pub const PRODUCE_NAME_MAX: i16 = 12;
/// The newest name-addressed Fetch version.
pub const FETCH_NAME_MAX: i16 = 12;
/// The first topic-id-addressed Produce version.
pub const PRODUCE_ID_MIN: i16 = 13;
/// The first topic-id-addressed Fetch version.
pub const FETCH_ID_MIN: i16 = 13;

/// What a producer that never asked for an identity stamps its batches with.
pub const NO_PRODUCER: i64 = -1;
pub const NO_EPOCH: i16 = -1;
pub const NO_SEQUENCE: i32 = -1;
/// A write every in-sync replica acknowledges.
pub const ALL_REPLICAS: i16 = -1;

/// A Metadata exchange about one topic, or about none.
pub open spec fn spec_metadata(
    tape: Seq<Event>,
    at: int,
    conn: usize,
    version: i16,
    topic: Option<Seq<char>>,
    correlation: i32,
) -> FlowView<MetadataAnswer> {
    asks::spec_ask_metadata(
        tape,
        at,
        Label::Named("Metadata"@),
        ActionOf::Call { conn, version, correlation, request: RequestOf::Metadata { topic } },
    )
}

/// Asks Metadata about one topic, with auto-creation refused.
pub fn metadata_of_topic<'a>(
    tape: &'a Vec<Event>,
    at: usize,
    conn: usize,
    version: i16,
    topic: &str,
    correlation: i32,
) -> (r: Flow<&'a MetadataAnswer>)
    ensures
        tape::read(r) == spec_metadata(tape@, at as int, conn, version, Some(topic@), correlation),
{
    asks::ask_metadata(
        tape,
        at,
        Label::Named("Metadata"),
        ActionOf::Call {
            conn,
            version,
            correlation,
            request: RequestOf::Metadata { topic: Some(String::from_str(topic)) },
        },
    )
}

/// A connection to the controller, or to the bootstrap address where
/// Metadata names no controller.
pub open spec fn spec_connect_to_controller(
    ctx: ServerCtx,
    tape: Seq<Event>,
    at: int,
    bootstrap: usize,
    version: i16,
    correlation: i32,
) -> FlowView<usize> {
    match spec_metadata(tape, at, bootstrap, version, None, correlation) {
        Err(halt) => Err(halt),
        Ok((answer, at)) => match find::spec_controller_address(answer) {
            Some(addr) => tape::spec_connect(tape, at, addr),
            None => tape::spec_connect(tape, at, ctx.addr@),
        },
    }
}

pub fn connect_to_controller(
    ctx: &ServerCtx,
    tape: &Vec<Event>,
    at: usize,
    bootstrap: usize,
    version: i16,
    correlation: i32,
) -> (r: Flow<usize>)
    ensures
        tape::ran(r) == spec_connect_to_controller(
            *ctx,
            tape@,
            at as int,
            bootstrap,
            version,
            correlation,
        ),
{
    let (answer, at) = asks::ask_metadata(
        tape,
        at,
        Label::Named("Metadata"),
        ActionOf::Call {
            conn: bootstrap,
            version,
            correlation,
            request: RequestOf::Metadata { topic: None },
        },
    )?;
    match controller_address(answer) {
        Some(addr) => connect(tape, at, addr.as_str()),
        None => connect(tape, at, ctx.addr.as_str()),
    }
}

/// Somewhere to send an administrative request: the controller, or the
/// bootstrap address where Metadata cannot be asked.
pub open spec fn spec_admin_conn(
    ctx: ServerCtx,
    tape: Seq<Event>,
    at: int,
    bootstrap: usize,
    correlation: i32,
) -> FlowView<usize> {
    match ctx.spec_pick("Metadata"@, METADATA, 1, ctx.schema.metadata.max) {
        Err(_) => tape::spec_connect(tape, at, ctx.addr@),
        Ok(version) => spec_connect_to_controller(ctx, tape, at, bootstrap, version, correlation),
    }
}

pub fn admin_conn(
    ctx: &ServerCtx,
    tape: &Vec<Event>,
    at: usize,
    bootstrap: usize,
    correlation: i32,
) -> (r: Flow<usize>)
    ensures
        tape::ran(r) == spec_admin_conn(*ctx, tape@, at as int, bootstrap, correlation),
{
    match ctx.pick("Metadata", METADATA, 1, ctx.schema.metadata.max) {
        Err(_) => connect(tape, at, ctx.addr.as_str()),
        Ok(version) => connect_to_controller(ctx, tape, at, bootstrap, version, correlation),
    }
}

/// A connection, with the address it goes to.
pub open spec fn spec_dial(tape: Seq<Event>, at: int, addr: Seq<char>) -> FlowView<
    (usize, Seq<char>),
> {
    match tape::spec_connect(tape, at, addr) {
        Err(halt) => Err(halt),
        Ok((conn, at)) => Ok(((conn, addr), at)),
    }
}

fn dial(tape: &Vec<Event>, at: usize, addr: &str) -> (r: Flow<(usize, String)>)
    ensures
        tape::ran(r) == spec_dial(tape@, at as int, addr@),
{
    let (conn, at) = connect(tape, at, addr)?;
    Ok(((conn, String::from_str(addr)), at))
}

/// A connection to the broker leading partition 0 of `topic`, from the given
/// attempt on: it waits out the window in which a fresh topic has no leader,
/// and falls back on the bootstrap address when the attempts are spent.
pub open spec fn spec_connect_to_leader(
    ctx: ServerCtx,
    tape: Seq<Event>,
    at: int,
    bootstrap: usize,
    version: i16,
    topic: Seq<char>,
    base: i32,
    attempt: int,
) -> FlowView<(usize, Seq<char>)>
    decreases ctx.config.spec_settle_attempts() - attempt,
{
    if attempt >= ctx.config.spec_settle_attempts() {
        spec_dial(tape, at, ctx.addr@)
    } else {
        match tape::spec_pause_between(tape, at, attempt) {
            Err(halt) => Err(halt),
            Ok((_, at)) => match spec_metadata(
                tape,
                at,
                bootstrap,
                version,
                Some(topic),
                ctx::spec_correlation(base, attempt),
            ) {
                Err(halt) => Err(halt),
                Ok((answer, at)) => match find::spec_leader_address(answer, topic) {
                    Some(addr) => spec_dial(tape, at, addr),
                    None => spec_connect_to_leader(
                        ctx,
                        tape,
                        at,
                        bootstrap,
                        version,
                        topic,
                        base,
                        attempt + 1,
                    ),
                },
            },
        }
    }
}

pub fn connect_to_leader(
    ctx: &ServerCtx,
    tape: &Vec<Event>,
    at: usize,
    bootstrap: usize,
    version: i16,
    topic: &str,
    base: i32,
) -> (r: Flow<(usize, String)>)
    ensures
        tape::ran(r) == spec_connect_to_leader(
            *ctx,
            tape@,
            at as int,
            bootstrap,
            version,
            topic@,
            base,
            0,
        ),
{
    let attempts: u32 = ctx.config.settle_attempts();
    let mut here: usize = at;
    let mut attempt: u32 = 0;
    while attempt < attempts
        invariant
            attempt <= attempts,
            attempts == ctx.config.spec_settle_attempts(),
            spec_connect_to_leader(*ctx, tape@, at as int, bootstrap, version, topic@, base, 0)
                == spec_connect_to_leader(
                *ctx,
                tape@,
                here as int,
                bootstrap,
                version,
                topic@,
                base,
                attempt as int,
            ),
        decreases attempts - attempt,
    {
        let (_, next) = pause_between(tape, here, attempt)?;
        let (answer, next) = metadata_of_topic(
            tape,
            next,
            bootstrap,
            version,
            topic,
            correlation(base, attempt),
        )?;
        if let Some(addr) = leader_address(answer, topic) {
            return dial(tape, next, addr.as_str());
        }
        here = next;
        attempt = attempt + 1;
    }
    dial(tape, here, ctx.addr.as_str())
}

/// One CreateTopics exchange through the controller: the entry for the topic.
pub open spec fn spec_create_topic(
    ctx: ServerCtx,
    tape: Seq<Event>,
    at: int,
    conn: usize,
    version: i16,
    topic: Seq<char>,
    validate_only: bool,
    correlation: i32,
) -> FlowView<CreatedRow> {
    match spec_admin_conn(ctx, tape, at, conn, correlation.wrapping_sub(1)) {
        Err(halt) => Err(halt),
        Ok((controller, at)) => match asks::spec_ask_create_topics(
            tape,
            at,
            Label::Named("CreateTopics"@),
            ActionOf::Call {
                conn: controller,
                version,
                correlation,
                request: RequestOf::CreateTopics { topic, replication_factor: 1, validate_only },
            },
        ) {
            Err(halt) => Err(halt),
            Ok((rows, at)) => match find::head(rows@) {
                None => Err(tape::spec_violation("CreateTopics response names no topics"@, at)),
                Some(row) => Ok((row, at)),
            },
        },
    }
}

pub fn create_topic_call<'a>(
    ctx: &ServerCtx,
    tape: &'a Vec<Event>,
    at: usize,
    conn: usize,
    version: i16,
    topic: &str,
    validate_only: bool,
    correlation: i32,
) -> (r: Flow<&'a CreatedRow>)
    ensures
        tape::read(r) == spec_create_topic(
            *ctx,
            tape@,
            at as int,
            conn,
            version,
            topic@,
            validate_only,
            correlation,
        ),
{
    let (controller, at) = admin_conn(ctx, tape, at, conn, correlation.wrapping_sub(1))?;
    let (rows, at) = asks::ask_create_topics(
        tape,
        at,
        Label::Named("CreateTopics"),
        ActionOf::Call {
            conn: controller,
            version,
            correlation,
            request: RequestOf::CreateTopics {
                topic: String::from_str(topic),
                replication_factor: 1,
                validate_only,
            },
        },
    )?;
    match first(rows) {
        None => Err(violation(String::from_str("CreateTopics response names no topics"), at)),
        Some(row) => Ok((row, at)),
    }
}

/// Codes that mean the topic or its leadership is still materializing.
pub open spec fn retriable_code(code: i16) -> bool {
    code == wire::UNKNOWN_TOPIC_OR_PARTITION || code == wire::LEADER_NOT_AVAILABLE || code
        == wire::NOT_LEADER_OR_FOLLOWER || code == wire::UNKNOWN_TOPIC_ID
}

pub fn retriable(code: i16) -> (r: bool)
    ensures
        r == retriable_code(code),
{
    code == wire::UNKNOWN_TOPIC_OR_PARTITION || code == wire::LEADER_NOT_AVAILABLE || code
        == wire::NOT_LEADER_OR_FOLLOWER || code == wire::UNKNOWN_TOPIC_ID
}

/// How the produce leg of the flow addresses the topic.
#[derive(Debug, Clone, Copy, PartialEq, Eq, Structural)]
pub enum Addressing {
    Name,
    TopicId,
}

/// A produced topic: where it was written, its identity, and the exact
/// record set that was sent.
#[derive(Debug)]
pub struct ProducedTopic {
    pub conn: usize,
    /// Where `conn` points: the partition leader.
    pub addr: String,
    pub topic: String,
    /// From CreateTopics; all zero means unknown.
    pub topic_id: TopicId,
    pub sent: Vec<u8>,
    pub base_offset: i64,
}

#[verifier::ext_equal]
pub struct ProducedView {
    pub conn: usize,
    pub addr: Seq<char>,
    pub topic: Seq<char>,
    pub topic_id: TopicId,
    pub sent: Seq<u8>,
    pub base_offset: i64,
}

impl View for ProducedTopic {
    type V = ProducedView;

    open spec fn view(&self) -> ProducedView {
        ProducedView {
            conn: self.conn,
            addr: self.addr@,
            topic: self.topic@,
            topic_id: self.topic_id,
            sent: self.sent@,
            base_offset: self.base_offset,
        }
    }
}

/// The stamp of an ordinary write: no producer identity, no transaction.
pub open spec fn spec_plain() -> BatchStamp {
    BatchStamp {
        producer_id: NO_PRODUCER,
        producer_epoch: NO_EPOCH,
        base_sequence: NO_SEQUENCE,
        transactional: false,
    }
}

pub open spec fn spec_note(message: Option<String>) -> Seq<char> {
    match message {
        Some(m) => ": "@ + m@,
        None => ""@,
    }
}

/// A message behind a colon, or nothing.
pub fn note(message: &Option<String>) -> (r: String)
    ensures
        r@ == spec_note(*message),
{
    match message {
        Some(m) => line(": ").lit(m.as_str()).done(),
        None => String::from_str(""),
    }
}

pub open spec fn spec_address(addressing: Addressing, topic: Seq<char>, id: TopicId) -> TopicOf<
    Seq<char>,
> {
    match addressing {
        Addressing::Name => TopicOf::Name(topic),
        Addressing::TopicId => TopicOf::Id(id),
    }
}

pub fn address(addressing: Addressing, topic: &str, id: TopicId) -> (r: TopicOf<String>)
    ensures
        r@ == spec_address(addressing, topic@, id),
{
    match addressing {
        Addressing::Name => TopicOf::Name(String::from_str(topic)),
        Addressing::TopicId => TopicOf::Id(id),
    }
}

/// What the produce leg of the flow has settled before it starts writing.
pub struct LegOf<S, B> {
    pub bootstrap: usize,
    pub topic: S,
    pub topic_id: TopicId,
    pub sent: B,
    pub produce_version: i16,
    pub metadata_version: i16,
    pub addressing: Addressing,
}

impl View for LegOf<String, Vec<u8>> {
    type V = LegOf<Seq<char>, Seq<u8>>;

    open spec fn view(&self) -> LegOf<Seq<char>, Seq<u8>> {
        LegOf {
            bootstrap: self.bootstrap,
            topic: self.topic@,
            topic_id: self.topic_id,
            sent: self.sent@,
            produce_version: self.produce_version,
            metadata_version: self.metadata_version,
            addressing: self.addressing,
        }
    }
}

/// Writing the batch to `(conn, addr)`, from the given attempt on. A
/// retriable code is the cluster saying that this broker is the wrong one to
/// ask, so the leader is looked up again between attempts.
pub open spec fn spec_produce_leg(
    ctx: ServerCtx,
    tape: Seq<Event>,
    at: int,
    leg: LegOf<Seq<char>, Seq<u8>>,
    conn: usize,
    addr: Seq<char>,
    attempt: int,
    last: Seq<char>,
) -> FlowView<ProducedView>
    decreases ctx.config.spec_settle_attempts() - attempt,
{
    if attempt >= ctx.config.spec_settle_attempts() {
        Err(
            tape::spec_fail(
                "topic never became producible: still "@ + last + " after "@ + text::dec(
                    ctx.config.spec_settle_attempts() as int,
                ) + " attempts over "@ + text::duration_text(ctx.config.settle_budget.nanos),
                at,
            ),
        )
    } else {
        match tape::spec_doing(
            asks::spec_ask_produce(
                tape,
                at,
                Label::Plain,
                ActionOf::Call {
                    conn,
                    version: leg.produce_version,
                    correlation: 11,
                    request: RequestOf::Produce {
                        topic: spec_address(leg.addressing, leg.topic, leg.topic_id),
                        partition: 0,
                        acks: ALL_REPLICAS,
                        transactional_id: None,
                        records: leg.sent,
                    },
                },
            ),
            "Produce"@,
        ) {
            Err(halt) => Err(halt),
            Ok((rows, at)) => match find::first_of_first(rows@) {
                None => Err(tape::spec_fail("Produce response names no partitions"@, at)),
                Some(row) => if row.error.ok() {
                    Ok(
                        (
                            ProducedView {
                                conn,
                                addr,
                                topic: leg.topic,
                                topic_id: leg.topic_id,
                                sent: leg.sent,
                                base_offset: row.base_offset,
                            },
                            at,
                        ),
                    )
                } else if !retriable_code(row.error.code) {
                    Err(tape::spec_fail("Produce failed with "@ + row.error.shown@, at))
                } else {
                    match tape::spec_pause(tape, at) {
                        Err(halt) => Err(halt),
                        Ok((_, at)) => match tape::spec_doing(
                            spec_connect_to_leader(
                                ctx,
                                tape,
                                at,
                                leg.bootstrap,
                                leg.metadata_version,
                                leg.topic,
                                13,
                                0,
                            ),
                            "relocating the partition leader"@,
                        ) {
                            Err(halt) => Err(halt),
                            Ok(((conn, addr), at)) => spec_produce_leg(
                                ctx,
                                tape,
                                at,
                                leg,
                                conn,
                                addr,
                                attempt + 1,
                                row.error.shown@,
                            ),
                        },
                    }
                },
            },
        }
    }
}

fn produce_leg(
    ctx: &ServerCtx,
    tape: &Vec<Event>,
    at: usize,
    leg: LegOf<String, Vec<u8>>,
    conn: usize,
    addr: String,
) -> (r: Flow<ProducedTopic>)
    ensures
        tape::ran(r) == spec_produce_leg(*ctx, tape@, at as int, leg@, conn, addr@, 0, ""@),
{
    let attempts: u32 = ctx.config.settle_attempts();
    let mut here: usize = at;
    let mut target: usize = conn;
    let mut place: String = addr.clone();
    let mut last: String = String::from_str("");
    let mut attempt: u32 = 0;
    while attempt < attempts
        invariant
            attempt <= attempts,
            attempts == ctx.config.spec_settle_attempts(),
            spec_produce_leg(*ctx, tape@, at as int, leg@, conn, addr@, 0, ""@)
                == spec_produce_leg(
                *ctx,
                tape@,
                here as int,
                leg@,
                target,
                place@,
                attempt as int,
                last@,
            ),
        decreases attempts - attempt,
    {
        let (rows, next) = doing_ref(
            asks::ask_produce(
                tape,
                here,
                Label::Plain,
                ActionOf::Call {
                    conn: target,
                    version: leg.produce_version,
                    correlation: 11,
                    request: RequestOf::Produce {
                        topic: address(leg.addressing, leg.topic.as_str(), leg.topic_id),
                        partition: 0,
                        acks: ALL_REPLICAS,
                        transactional_id: None,
                        records: copy_bytes(&leg.sent),
                    },
                },
            ),
            "Produce",
        )?;
        let row = match first_row(rows) {
            None => return Err(
                fail(String::from_str("Produce response names no partitions"), next),
            ),
            Some(row) => row,
        };
        if row.error.is_ok() {
            return Ok(
                (
                    ProducedTopic {
                        conn: target,
                        addr: place,
                        topic: leg.topic,
                        topic_id: leg.topic_id,
                        sent: leg.sent,
                        base_offset: row.base_offset,
                    },
                    next,
                ),
            );
        }
        if !retriable(row.error.code) {
            return Err(
                fail(line("Produce failed with ").lit(row.error.shown.as_str()).done(), next),
            );
        }
        last = row.error.shown.clone();
        let (_, next) = pause(tape, next)?;
        let (leader, next) = doing(
            connect_to_leader(
                ctx,
                tape,
                next,
                leg.bootstrap,
                leg.metadata_version,
                leg.topic.as_str(),
                13,
            ),
            "relocating the partition leader",
        )?;
        target = leader.0;
        place = leader.1;
        here = next;
        attempt = attempt + 1;
    }
    Err(
        fail(
            line("topic never became producible: still ").lit(last.as_str()).lit(" after ").count(
                attempts as u128,
            ).lit(" attempts over ").wait(ctx.config.settle_budget.nanos).done(),
            here,
        ),
    )
}

/// Creating a fresh single-partition topic and writing the probe batch to
/// its partition 0 with all replicas acknowledging.
pub open spec fn spec_produce_flow(
    ctx: ServerCtx,
    tape: Seq<Event>,
    at: int,
    tag: Seq<char>,
    addressing: Addressing,
) -> FlowView<ProducedView> {
    match ctx.spec_version(
        at,
        "CreateTopics"@,
        CREATE_TOPICS,
        ctx.schema.create_topics.min,
        ctx.schema.create_topics.max,
    ) {
        Err(halt) => Err(halt),
        Ok(create_version) => match ctx.spec_version(
            at,
            "Produce"@,
            PRODUCE,
            (match addressing {
                Addressing::Name => ctx.schema.produce.min,
                Addressing::TopicId => PRODUCE_ID_MIN,
            }),
            (match addressing {
                Addressing::Name => PRODUCE_NAME_MAX,
                Addressing::TopicId => ctx.schema.produce.max,
            }),
        ) {
            Err(halt) => Err(halt),
            Ok(produce_version) => match ctx.spec_version(
                at,
                "Metadata"@,
                METADATA,
                1,
                ctx.schema.metadata.max,
            ) {
                Err(halt) => Err(halt),
                Ok(metadata_version) => match tape::spec_connect(tape, at, ctx.addr@) {
                    Err(halt) => Err(halt),
                    Ok((bootstrap, at)) => match ctx::spec_fresh_topic(ctx, tape, at, tag) {
                        Err(halt) => Err(halt),
                        Ok((topic, at)) => spec_produce_created(
                            ctx,
                            tape,
                            at,
                            bootstrap,
                            topic,
                            create_version,
                            produce_version,
                            metadata_version,
                            addressing,
                        ),
                    },
                },
            },
        },
    }
}

/// The same flow from the moment the topic has a name.
pub open spec fn spec_produce_created(
    ctx: ServerCtx,
    tape: Seq<Event>,
    at: int,
    bootstrap: usize,
    topic: Seq<char>,
    create_version: i16,
    produce_version: i16,
    metadata_version: i16,
    addressing: Addressing,
) -> FlowView<ProducedView> {
    match tape::spec_doing(
        spec_admin_conn(ctx, tape, at, bootstrap, 9),
        "locating the controller"@,
    ) {
        Err(halt) => Err(halt),
        Ok((controller, at)) => match tape::spec_doing(
            asks::spec_ask_create_topics(
                tape,
                at,
                Label::Plain,
                ActionOf::Call {
                    conn: controller,
                    version: create_version,
                    correlation: 10,
                    request: RequestOf::CreateTopics {
                        topic,
                        replication_factor: 1,
                        validate_only: false,
                    },
                },
            ),
            "CreateTopics"@,
        ) {
            Err(halt) => Err(halt),
            Ok((rows, at)) => match find::head(rows@) {
                None => Err(tape::spec_fail("CreateTopics response names no topics"@, at)),
                Some(row) => if !row.error.ok() {
                    Err(
                        tape::spec_fail(
                            "CreateTopics failed with "@ + row.error.shown@ + spec_note(
                                row.error_message,
                            ),
                            at,
                        ),
                    )
                } else if addressing == Addressing::TopicId && row.topic_id@ == wire::zero_id() {
                    Err(
                        tape::spec_skip(
                            "CreateTopics v"@ + text::dec(create_version as int)
                                + " did not return a topic id (needs v7+)"@,
                            at,
                        ),
                    )
                } else {
                    match tape::spec_encode(
                        tape,
                        at,
                        Label::Plain,
                        ActionOf::Encode { stamp: spec_plain() },
                    ) {
                        Err(halt) => Err(halt),
                        Ok((sent, at)) => match tape::spec_doing(
                            spec_connect_to_leader(
                                ctx,
                                tape,
                                at,
                                bootstrap,
                                metadata_version,
                                topic,
                                12,
                                0,
                            ),
                            "locating the partition leader"@,
                        ) {
                            Err(halt) => Err(halt),
                            Ok(((conn, addr), at)) => spec_produce_leg(
                                ctx,
                                tape,
                                at,
                                LegOf {
                                    bootstrap,
                                    topic,
                                    topic_id: row.topic_id,
                                    sent: sent@,
                                    produce_version,
                                    metadata_version,
                                    addressing,
                                },
                                conn,
                                addr,
                                0,
                                ""@,
                            ),
                        },
                    }
                },
            },
        },
    }
}

/// Creates a unique single-partition topic and produces the probe batch to
/// partition 0 with acks=-1, retrying while the topic materializes.
pub fn produce_flow(
    ctx: &ServerCtx,
    tape: &Vec<Event>,
    at: usize,
    tag: &str,
    addressing: Addressing,
) -> (r: Flow<ProducedTopic>)
    ensures
        tape::ran(r) == spec_produce_flow(*ctx, tape@, at as int, tag@, addressing),
{
    let create_version: i16 = ctx.version(
        at,
        "CreateTopics",
        CREATE_TOPICS,
        ctx.schema.create_topics.min,
        ctx.schema.create_topics.max,
    )?;
    let produce_min: i16 = match addressing {
        Addressing::Name => ctx.schema.produce.min,
        Addressing::TopicId => PRODUCE_ID_MIN,
    };
    let produce_max: i16 = match addressing {
        Addressing::Name => PRODUCE_NAME_MAX,
        Addressing::TopicId => ctx.schema.produce.max,
    };
    let produce_version: i16 = ctx.version(at, "Produce", PRODUCE, produce_min, produce_max)?;
    let metadata_version: i16 = ctx.version(
        at,
        "Metadata",
        METADATA,
        1,
        ctx.schema.metadata.max,
    )?;
    let (bootstrap, at) = connect(tape, at, ctx.addr.as_str())?;
    let (topic, at) = fresh_topic(ctx, tape, at, tag)?;
    produce_created(
        ctx,
        tape,
        at,
        bootstrap,
        topic,
        create_version,
        produce_version,
        metadata_version,
        addressing,
    )
}

fn produce_created(
    ctx: &ServerCtx,
    tape: &Vec<Event>,
    at: usize,
    bootstrap: usize,
    topic: String,
    create_version: i16,
    produce_version: i16,
    metadata_version: i16,
    addressing: Addressing,
) -> (r: Flow<ProducedTopic>)
    ensures
        tape::ran(r) == spec_produce_created(
            *ctx,
            tape@,
            at as int,
            bootstrap,
            topic@,
            create_version,
            produce_version,
            metadata_version,
            addressing,
        ),
{
    let (controller, at) = doing(
        admin_conn(ctx, tape, at, bootstrap, 9),
        "locating the controller",
    )?;
    let (rows, at) = doing_ref(
        asks::ask_create_topics(
            tape,
            at,
            Label::Plain,
            ActionOf::Call {
                conn: controller,
                version: create_version,
                correlation: 10,
                request: RequestOf::CreateTopics {
                    topic: topic.clone(),
                    replication_factor: 1,
                    validate_only: false,
                },
            },
        ),
        "CreateTopics",
    )?;
    let row = match first(rows) {
        None => return Err(
            fail(String::from_str("CreateTopics response names no topics"), at),
        ),
        Some(row) => row,
    };
    if !row.error.is_ok() {
        return Err(
            fail(
                line("CreateTopics failed with ").lit(row.error.shown.as_str()).lit(
                    note(&row.error_message).as_str(),
                ).done(),
                at,
            ),
        );
    }
    if addressing == Addressing::TopicId && wire::is_zero_id(&row.topic_id) {
        return Err(
            skip(
                line("CreateTopics v").num(create_version as i64).lit(
                    " did not return a topic id (needs v7+)",
                ).done(),
                at,
            ),
        );
    }
    let (sent, at) = encode(
        tape,
        at,
        Label::Plain,
        ActionOf::Encode {
            stamp: BatchStamp {
                producer_id: NO_PRODUCER,
                producer_epoch: NO_EPOCH,
                base_sequence: NO_SEQUENCE,
                transactional: false,
            },
        },
    )?;
    let (leader, at) = doing(
        connect_to_leader(ctx, tape, at, bootstrap, metadata_version, topic.as_str(), 12),
        "locating the partition leader",
    )?;
    produce_leg(
        ctx,
        tape,
        at,
        LegOf {
            bootstrap,
            topic,
            topic_id: row.topic_id,
            sent: copy_bytes(sent),
            produce_version,
            metadata_version,
            addressing,
        },
        leader.0,
        leader.1,
    )
}

} // verus!

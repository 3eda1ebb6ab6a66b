//! The steps of the transaction and idempotence checks.

use vstd::prelude::*;
use vstd::string::*;

use crate::checks::asks;
use crate::checks::batch;
use crate::checks::batch::{ProduceStamp, ProduceStampOf};
use crate::checks::ctx;
use crate::checks::ctx::{correlation, ServerCtx};
use crate::checks::find;
use crate::checks::find::{first_row, has_i64};
use crate::checks::flows;
use crate::checks::flows::{retriable, ALL_REPLICAS, FETCH_NAME_MAX, PRODUCE_NAME_MAX};
use crate::checks::group_flows;
use crate::checks::group_flows::{ask_coordinator, Place};
use crate::checks::log_flows;
use crate::checks::log_flows::{fetch_partition, still_resolving};
use crate::checks::tape;
use crate::checks::tape::{
    connect, doing_ref, encode, fail, pause_between, violation, ActionOf, CheckError, ErrorView,
    Event, Flow, FlowView, Halt, HaltView, Label,
};
use crate::text;
use crate::text::line;
use crate::wire;
use crate::wire::{
    ErrorCode, FetchedRow, InitProducerIdAnswer, ProducedRow, RequestOf, TopicOf, TxnActor,
    TxnActorOf, ADD_PARTITIONS_TO_TXN, END_TXN, FETCH, FIND_COORDINATOR, INIT_PRODUCER_ID,
    PRODUCE, READ_COMMITTED,
};

verus! {

/// AddPartitionsToTxn versions a client may speak.
pub const ADD_PARTITIONS_CLIENT_MAX: i16 = 3;
/// InitProducerId before two-phase commit.
pub const TXN_INIT_MAX: i16 = 5;
/// EndTxn before it bumps the epoch on every transaction.
pub const END_TXN_MAX: i16 = 4;

/// Negotiated versions for one transaction check.
#[derive(Debug, Clone, Copy, PartialEq, Eq, Structural)]
pub struct TxnVersions {
    pub init: i16,
    pub add: i16,
    pub end: i16,
    pub produce: i16,
    pub fetch: i16,
}

pub open spec fn spec_txn_versions(ctx: ServerCtx, at: int) -> Result<TxnVersions, HaltView> {
    match ctx.spec_version(
        at,
        "InitProducerId"@,
        INIT_PRODUCER_ID,
        ctx.schema.init_producer_id.min,
        TXN_INIT_MAX,
    ) {
        Err(halt) => Err(halt),
        Ok(init) => match ctx.spec_version(
            at,
            "AddPartitionsToTxn"@,
            ADD_PARTITIONS_TO_TXN,
            ctx.schema.add_partitions_to_txn.min,
            ADD_PARTITIONS_CLIENT_MAX,
        ) {
            Err(halt) => Err(halt),
            Ok(add) => match ctx.spec_version(
                at,
                "EndTxn"@,
                END_TXN,
                ctx.schema.end_txn.min,
                END_TXN_MAX,
            ) {
                Err(halt) => Err(halt),
                Ok(end) => match ctx.spec_version(
                    at,
                    "Produce"@,
                    PRODUCE,
                    ctx.schema.produce.min,
                    PRODUCE_NAME_MAX,
                ) {
                    Err(halt) => Err(halt),
                    Ok(produce) => match ctx.spec_version(
                        at,
                        "Fetch"@,
                        FETCH,
                        ctx.schema.fetch.min,
                        FETCH_NAME_MAX,
                    ) {
                        Err(halt) => Err(halt),
                        Ok(fetch) => Ok(TxnVersions { init, add, end, produce, fetch }),
                    },
                },
            },
        },
    }
}

pub fn txn_versions(ctx: &ServerCtx, at: usize) -> (r: Result<TxnVersions, Halt>)
    ensures
        tape::held(r) == spec_txn_versions(*ctx, at as int),
{
    let init: i16 = ctx.version(
        at,
        "InitProducerId",
        INIT_PRODUCER_ID,
        ctx.schema.init_producer_id.min,
        TXN_INIT_MAX,
    )?;
    let add: i16 = ctx.version(
        at,
        "AddPartitionsToTxn",
        ADD_PARTITIONS_TO_TXN,
        ctx.schema.add_partitions_to_txn.min,
        ADD_PARTITIONS_CLIENT_MAX,
    )?;
    let end: i16 = ctx.version(at, "EndTxn", END_TXN, ctx.schema.end_txn.min, END_TXN_MAX)?;
    let produce: i16 = ctx.version(
        at,
        "Produce",
        PRODUCE,
        ctx.schema.produce.min,
        PRODUCE_NAME_MAX,
    )?;
    let fetch: i16 = ctx.version(at, "Fetch", FETCH, ctx.schema.fetch.min, FETCH_NAME_MAX)?;
    Ok(TxnVersions { init, add, end, produce, fetch })
}

/// A claimed producer identity, and the connection to the coordinator that
/// granted it.
#[derive(Debug, Clone, Copy, PartialEq, Eq, Structural)]
pub struct Claim {
    pub conn: usize,
    pub producer_id: i64,
    pub producer_epoch: i16,
}

impl View for Claim {
    type V = Claim;

    open spec fn view(&self) -> Claim {
        *self
    }
}

pub open spec fn spec_actor(id: Seq<char>, claim: Claim) -> TxnActorOf<Seq<char>> {
    TxnActorOf {
        transactional_id: id,
        producer_id: claim.producer_id,
        producer_epoch: claim.producer_epoch,
    }
}

pub open spec fn spec_at_epoch(actor: TxnActorOf<Seq<char>>, producer_epoch: i16) -> TxnActorOf<
    Seq<char>,
> {
    TxnActorOf {
        transactional_id: actor.transactional_id,
        producer_id: actor.producer_id,
        producer_epoch,
    }
}

impl TxnActorOf<String> {
    /// The producer that holds the id under this claim.
    pub fn new(id: &String, claim: Claim) -> (r: TxnActor)
        ensures
            r@ == spec_actor(id@, claim),
    {
        TxnActorOf {
            transactional_id: id.clone(),
            producer_id: claim.producer_id,
            producer_epoch: claim.producer_epoch,
        }
    }

    /// The same actor at a different epoch.
    pub fn at_epoch(self, producer_epoch: i16) -> (r: TxnActor)
        ensures
            r@ == spec_at_epoch(self@, producer_epoch),
    {
        TxnActorOf {
            transactional_id: self.transactional_id,
            producer_id: self.producer_id,
            producer_epoch,
        }
    }

    /// The same actor again.
    pub fn copy(&self) -> (r: TxnActor)
        ensures
            r@ == self@,
    {
        TxnActorOf {
            transactional_id: self.transactional_id.clone(),
            producer_id: self.producer_id,
            producer_epoch: self.producer_epoch,
        }
    }
}

/// The coordinator of a transactional id. A subject that advertises no
/// FindCoordinator is not asked.
pub open spec fn spec_await_txn_coordinator(
    ctx: ServerCtx,
    tape: Seq<Event>,
    at: int,
    conn: usize,
    id: Seq<char>,
    base: i32,
) -> FlowView<Option<Seq<char>>> {
    match ctx.spec_pick(
        "FindCoordinator"@,
        FIND_COORDINATOR,
        ctx.schema.find_coordinator.min,
        ctx.schema.find_coordinator.max,
    ) {
        Err(_) => Ok((None, at)),
        Ok(version) => group_flows::spec_ask_coordinator(
            ctx,
            tape,
            at,
            conn,
            version,
            1,
            id,
            base,
            0,
        ),
    }
}

pub fn await_txn_coordinator(
    ctx: &ServerCtx,
    tape: &Vec<Event>,
    at: usize,
    conn: usize,
    id: &str,
    base: i32,
) -> (r: Flow<Place>)
    ensures
        tape::ran(r) == spec_await_txn_coordinator(*ctx, tape@, at as int, conn, id@, base),
{
    match ctx.pick(
        "FindCoordinator",
        FIND_COORDINATOR,
        ctx.schema.find_coordinator.min,
        ctx.schema.find_coordinator.max,
    ) {
        Err(_) => Ok((Place(None), at)),
        Ok(version) => ask_coordinator(ctx, tape, at, conn, version, 1, id, base),
    }
}

/// Codes that mean the transaction log is still coming up.
pub open spec fn txn_settling_code(code: i16) -> bool {
    find::settling_code(code) || code == wire::NOT_COORDINATOR
}

pub fn txn_coordinator_settling(code: i16) -> (r: bool)
    ensures
        r == txn_settling_code(code),
{
    find::is_coordinator_settling(code) || code == wire::NOT_COORDINATOR
}

/// Going where the coordinator now is, before every attempt but the first.
pub open spec fn spec_follow(
    ctx: ServerCtx,
    tape: Seq<Event>,
    at: int,
    bootstrap: usize,
    conn: usize,
    id: Seq<char>,
    base: i32,
    attempt: int,
) -> FlowView<usize> {
    if attempt == 0 {
        Ok((conn, at))
    } else {
        match tape::spec_pause(tape, at) {
            Err(halt) => Err(halt),
            Ok((_, at)) => match spec_await_txn_coordinator(
                ctx,
                tape,
                at,
                bootstrap,
                id,
                base.wrapping_sub(1),
            ) {
                Err(halt) => Err(halt),
                Ok((Some(addr), at)) => tape::spec_connect(tape, at, addr),
                Ok((None, at)) => Ok((conn, at)),
            },
        }
    }
}

fn follow(
    ctx: &ServerCtx,
    tape: &Vec<Event>,
    at: usize,
    bootstrap: usize,
    conn: usize,
    id: &str,
    base: i32,
    attempt: u32,
) -> (r: Flow<usize>)
    ensures
        tape::ran(r) == spec_follow(
            *ctx,
            tape@,
            at as int,
            bootstrap,
            conn,
            id@,
            base,
            attempt as int,
        ),
{
    if attempt == 0 {
        return Ok((conn, at));
    }
    let (_, at) = tape::pause(tape, at)?;
    let (place, at) = await_txn_coordinator(
        ctx,
        tape,
        at,
        bootstrap,
        id,
        base.wrapping_sub(1),
    )?;
    match place.0 {
        Some(addr) => connect(tape, at, addr.as_str()),
        None => Ok((conn, at)),
    }
}

pub open spec fn spec_never(id: Seq<char>, last: Seq<char>, at: int) -> HaltView {
    tape::spec_violation("InitProducerId for "@ + id + " never succeeded: "@ + last, at)
}

/// Claiming a transactional id, from the given attempt on.
pub open spec fn spec_claim(
    ctx: ServerCtx,
    tape: Seq<Event>,
    at: int,
    bootstrap: usize,
    conn: usize,
    version: i16,
    id: Seq<char>,
    base: i32,
    attempt: int,
    last: Seq<char>,
) -> FlowView<Claim>
    decreases ctx.config.spec_settle_attempts() - attempt,
{
    if attempt >= ctx.config.spec_settle_attempts() {
        Err(spec_never(id, last, at))
    } else {
        match spec_follow(ctx, tape, at, bootstrap, conn, id, base, attempt) {
            Err(halt) => Err(halt),
            Ok((conn, at)) => match asks::spec_ask_init_producer_id(
                tape,
                at,
                Label::Named("InitProducerId"@),
                ActionOf::Call {
                    conn,
                    version,
                    correlation: ctx::spec_correlation(base, attempt),
                    request: RequestOf::InitProducerId {
                        transactional_id: Some(id),
                        timeout_ms: 60_000,
                    },
                },
            ) {
                Err(halt) => Err(halt),
                Ok((answer, at)) => if answer.error.ok() {
                    Ok(
                        (
                            Claim {
                                conn,
                                producer_id: answer.producer_id,
                                producer_epoch: answer.producer_epoch,
                            },
                            at,
                        ),
                    )
                } else if !flows::retriable_code(answer.error.code) && !txn_settling_code(
                    answer.error.code,
                ) && answer.error.code != wire::CONCURRENT_TRANSACTIONS {
                    Err(spec_never(id, answer.error.shown@, at))
                } else {
                    spec_claim(
                        ctx,
                        tape,
                        at,
                        bootstrap,
                        conn,
                        version,
                        id,
                        base,
                        attempt + 1,
                        answer.error.shown@,
                    )
                },
            },
        }
    }
}

/// Claiming a transactional id, riding out a coordinator that is loading.
pub open spec fn spec_init_producer_id(
    ctx: ServerCtx,
    tape: Seq<Event>,
    at: int,
    version: i16,
    id: Seq<char>,
    base: i32,
) -> FlowView<Claim> {
    match tape::spec_connect(tape, at, ctx.addr@) {
        Err(halt) => Err(halt),
        Ok((bootstrap, at)) => match spec_await_txn_coordinator(
            ctx,
            tape,
            at,
            bootstrap,
            id,
            base.wrapping_sub(1),
        ) {
            Err(halt) => Err(halt),
            Ok((place, at)) => match tape::spec_connect(
                tape,
                at,
                match place {
                    Some(addr) => addr,
                    None => ctx.addr@,
                },
            ) {
                Err(halt) => Err(halt),
                Ok((conn, at)) => spec_claim(
                    ctx,
                    tape,
                    at,
                    bootstrap,
                    conn,
                    version,
                    id,
                    base,
                    0,
                    ""@,
                ),
            },
        },
    }
}

pub fn init_producer_id(
    ctx: &ServerCtx,
    tape: &Vec<Event>,
    at: usize,
    version: i16,
    id: &str,
    base: i32,
) -> (r: Flow<Claim>)
    ensures
        tape::ran(r) == spec_init_producer_id(*ctx, tape@, at as int, version, id@, base),
{
    let (bootstrap, after) = connect(tape, at, ctx.addr.as_str())?;
    let (place, after) = await_txn_coordinator(
        ctx,
        tape,
        after,
        bootstrap,
        id,
        base.wrapping_sub(1),
    )?;
    let (opened, after) = match place.0 {
        Some(addr) => connect(tape, after, addr.as_str())?,
        None => connect(tape, after, ctx.addr.as_str())?,
    };
    let attempts: u32 = ctx.config.settle_attempts();
    let mut conn: usize = opened;
    let mut last: String = String::from_str("");
    let mut here: usize = after;
    let mut attempt: u32 = 0;
    while attempt < attempts
        invariant
            attempt <= attempts,
            attempts == ctx.config.spec_settle_attempts(),
            spec_init_producer_id(*ctx, tape@, at as int, version, id@, base) == spec_claim(
                *ctx,
                tape@,
                here as int,
                bootstrap,
                conn,
                version,
                id@,
                base,
                attempt as int,
                last@,
            ),
        decreases attempts - attempt,
    {
        let (now, next) = follow(ctx, tape, here, bootstrap, conn, id, base, attempt)?;
        conn = now;
        let (answer, next) = asks::ask_init_producer_id(
            tape,
            next,
            Label::Named("InitProducerId"),
            ActionOf::Call {
                conn,
                version,
                correlation: correlation(base, attempt),
                request: RequestOf::InitProducerId {
                    transactional_id: Some(String::from_str(id)),
                    timeout_ms: 60_000,
                },
            },
        )?;
        if answer.error.is_ok() {
            return Ok(
                (
                    Claim {
                        conn,
                        producer_id: answer.producer_id,
                        producer_epoch: answer.producer_epoch,
                    },
                    next,
                ),
            );
        }
        last = answer.error.shown.clone();
        if !retriable(answer.error.code) && !txn_coordinator_settling(answer.error.code)
            && answer.error.code != wire::CONCURRENT_TRANSACTIONS {
            return Err(
                violation(
                    line("InitProducerId for ").lit(id).lit(" never succeeded: ").lit(
                        last.as_str(),
                    ).done(),
                    next,
                ),
            );
        }
        here = next;
        attempt = attempt + 1;
    }
    Err(
        violation(
            line("InitProducerId for ").lit(id).lit(" never succeeded: ").lit(
                last.as_str(),
            ).done(),
            here,
        ),
    )
}

pub open spec fn spec_never_anonymous(last: Seq<char>, at: int) -> HaltView {
    tape::spec_violation("InitProducerId never succeeded: "@ + last, at)
}

/// Taking a producer id with no transactional id attached, from the given
/// attempt on.
pub open spec fn spec_init_idempotent(
    ctx: ServerCtx,
    tape: Seq<Event>,
    at: int,
    conn: usize,
    version: i16,
    base: i32,
    attempt: int,
    last: Seq<char>,
) -> FlowView<InitProducerIdAnswer>
    decreases ctx.config.spec_settle_attempts() - attempt,
{
    if attempt >= ctx.config.spec_settle_attempts() {
        Err(spec_never_anonymous(last, at))
    } else {
        match tape::spec_pause_between(tape, at, attempt) {
            Err(halt) => Err(halt),
            Ok((_, at)) => match asks::spec_ask_init_producer_id(
                tape,
                at,
                Label::Named("InitProducerId"@),
                ActionOf::Call {
                    conn,
                    version,
                    correlation: ctx::spec_correlation(base, attempt),
                    request: RequestOf::InitProducerId {
                        transactional_id: None,
                        timeout_ms: NO_TIMEOUT,
                    },
                },
            ) {
                Err(halt) => Err(halt),
                Ok((answer, at)) => if answer.error.ok() {
                    Ok((answer, at))
                } else if !flows::retriable_code(answer.error.code) && !txn_settling_code(
                    answer.error.code,
                ) {
                    Err(spec_never_anonymous(answer.error.shown@, at))
                } else {
                    spec_init_idempotent(
                        ctx,
                        tape,
                        at,
                        conn,
                        version,
                        base,
                        attempt + 1,
                        answer.error.shown@,
                    )
                },
            },
        }
    }
}

/// No transaction, so no time after which to give it up.
pub const NO_TIMEOUT: i32 = -1;

pub fn init_idempotent_producer_id<'a>(
    ctx: &ServerCtx,
    tape: &'a Vec<Event>,
    at: usize,
    conn: usize,
    version: i16,
    base: i32,
) -> (r: Flow<&'a InitProducerIdAnswer>)
    ensures
        tape::read(r) == spec_init_idempotent(
            *ctx,
            tape@,
            at as int,
            conn,
            version,
            base,
            0,
            ""@,
        ),
{
    let attempts: u32 = ctx.config.settle_attempts();
    let mut last: String = String::from_str("");
    let mut here: usize = at;
    let mut attempt: u32 = 0;
    while attempt < attempts
        invariant
            attempt <= attempts,
            attempts == ctx.config.spec_settle_attempts(),
            spec_init_idempotent(*ctx, tape@, at as int, conn, version, base, 0, ""@)
                == spec_init_idempotent(
                *ctx,
                tape@,
                here as int,
                conn,
                version,
                base,
                attempt as int,
                last@,
            ),
        decreases attempts - attempt,
    {
        let (_, next) = pause_between(tape, here, attempt)?;
        let (answer, next) = asks::ask_init_producer_id(
            tape,
            next,
            Label::Named("InitProducerId"),
            ActionOf::Call {
                conn,
                version,
                correlation: correlation(base, attempt),
                request: RequestOf::InitProducerId {
                    transactional_id: None,
                    timeout_ms: NO_TIMEOUT,
                },
            },
        )?;
        if answer.error.is_ok() {
            return Ok((answer, next));
        }
        last = answer.error.shown.clone();
        if !retriable(answer.error.code) && !txn_coordinator_settling(answer.error.code) {
            return Err(
                violation(
                    line("InitProducerId never succeeded: ").lit(last.as_str()).done(),
                    next,
                ),
            );
        }
        here = next;
        attempt = attempt + 1;
    }
    Err(violation(line("InitProducerId never succeeded: ").lit(last.as_str()).done(), here))
}

/// A code that is no error, or no code at all.
pub open spec fn fine(code: Option<ErrorCode>) -> bool {
    match code {
        Some(c) => c.ok(),
        None => true,
    }
}

/// Announcing one partition to a transaction: the code its entry carries.
pub open spec fn spec_add_partitions(
    tape: Seq<Event>,
    at: int,
    conn: usize,
    version: i16,
    actor: TxnActorOf<Seq<char>>,
    topic: Seq<char>,
    correlation: i32,
) -> FlowView<Option<ErrorCode>> {
    match asks::spec_ask_codes(
        tape,
        at,
        Label::Named("AddPartitionsToTxn"@),
        ActionOf::Call {
            conn,
            version,
            correlation,
            request: RequestOf::AddPartitionsToTxn { actor, topic, partition: 0 },
        },
    ) {
        Err(halt) => Err(halt),
        Ok((codes, at)) => Ok((find::first_of_first(codes@), at)),
    }
}

/// A flow whose value may be absent, in specifications.
pub open spec fn read_opt<T>(flow: Flow<Option<&T>>) -> FlowView<Option<T>> {
    match flow {
        Ok((value, at)) => Ok((find::found(value), at as int)),
        Err(halt) => Err(halt@),
    }
}

pub fn doing_opt<'a, T>(flow: Flow<Option<&'a T>>, what: &str) -> (r: Flow<Option<&'a T>>)
    ensures
        read_opt(r) == tape::spec_doing(read_opt(flow), what@),
{
    match flow {
        Ok(done) => Ok(done),
        Err(Halt::Broke(error, at)) => Err(Halt::Broke(error.context(what), at)),
        Err(halt) => Err(halt),
    }
}

pub fn add_partitions_to_txn<'a>(
    tape: &'a Vec<Event>,
    at: usize,
    conn: usize,
    version: i16,
    actor: &TxnActor,
    topic: &str,
    correlation: i32,
) -> (r: Flow<Option<&'a ErrorCode>>)
    ensures
        read_opt(r) == spec_add_partitions(
            tape@,
            at as int,
            conn,
            version,
            actor@,
            topic@,
            correlation,
        ),
{
    let (codes, at) = asks::ask_codes(
        tape,
        at,
        Label::Named("AddPartitionsToTxn"),
        ActionOf::Call {
            conn,
            version,
            correlation,
            request: RequestOf::AddPartitionsToTxn {
                actor: actor.copy(),
                topic: String::from_str(topic),
                partition: 0,
            },
        },
    )?;
    Ok((first_row(codes), at))
}

/// Finishing a transaction: the coordinator's answer.
pub open spec fn spec_end_txn(
    tape: Seq<Event>,
    at: int,
    conn: usize,
    version: i16,
    actor: TxnActorOf<Seq<char>>,
    committed: bool,
    correlation: i32,
) -> FlowView<ErrorCode> {
    asks::spec_ask_code(
        tape,
        at,
        Label::Named("EndTxn"@),
        ActionOf::Call {
            conn,
            version,
            correlation,
            request: RequestOf::EndTxn { actor, committed },
        },
    )
}

pub fn end_txn<'a>(
    tape: &'a Vec<Event>,
    at: usize,
    conn: usize,
    version: i16,
    actor: &TxnActor,
    committed: bool,
    correlation: i32,
) -> (r: Flow<&'a ErrorCode>)
    ensures
        tape::read(r) == spec_end_txn(
            tape@,
            at as int,
            conn,
            version,
            actor@,
            committed,
            correlation,
        ),
{
    asks::ask_code(
        tape,
        at,
        Label::Named("EndTxn"),
        ActionOf::Call {
            conn,
            version,
            correlation,
            request: RequestOf::EndTxn { actor: actor.copy(), committed },
        },
    )
}

/// Finishing a transaction for tidiness: its answer does not matter.
pub open spec fn spec_tidy_txn(
    tape: Seq<Event>,
    at: int,
    conn: usize,
    version: i16,
    actor: TxnActorOf<Seq<char>>,
    correlation: i32,
) -> FlowView<()> {
    match spec_end_txn(tape, at, conn, version, actor, false, correlation) {
        Ok((_, at)) => Ok(((), at)),
        Err(HaltView::Broke(_, at)) => Ok(((), at)),
        Err(halt) => Err(halt),
    }
}

pub fn tidy_txn(
    tape: &Vec<Event>,
    at: usize,
    conn: usize,
    version: i16,
    actor: &TxnActor,
    correlation: i32,
) -> (r: Flow<()>)
    ensures
        tape::ran(r) == spec_tidy_txn(tape@, at as int, conn, version, actor@, correlation),
{
    match end_txn(tape, at, conn, version, actor, false, correlation) {
        Ok((_, at)) => Ok(((), at)),
        Err(Halt::Broke(_, at)) => Ok(((), at)),
        Err(halt) => Err(halt),
    }
}

/// Producing the probe batch under a stamp: the partition's entry.
pub open spec fn spec_produce_stamped(
    tape: Seq<Event>,
    at: int,
    conn: usize,
    version: i16,
    stamp: ProduceStampOf<Seq<char>>,
    topic: Seq<char>,
    correlation: i32,
) -> FlowView<ProducedRow> {
    match tape::spec_encode(
        tape,
        at,
        Label::Named("transactional batch"@),
        ActionOf::Encode { stamp: stamp.spec_on_batch() },
    ) {
        Err(halt) => Err(halt),
        Ok((records, at)) => match asks::spec_ask_produce(
            tape,
            at,
            Label::Named("Produce"@),
            ActionOf::Call {
                conn,
                version,
                correlation,
                request: RequestOf::Produce {
                    topic: TopicOf::Name(topic),
                    partition: 0,
                    acks: ALL_REPLICAS,
                    transactional_id: stamp.transactional_id,
                    records: records@,
                },
            },
        ) {
            Err(halt) => Err(halt),
            Ok((rows, at)) => match find::first_of_first(rows@) {
                None => Err(tape::spec_violation("Produce response names no partitions"@, at)),
                Some(row) => Ok((row, at)),
            },
        },
    }
}

pub fn produce_stamped<'a>(
    tape: &'a Vec<Event>,
    at: usize,
    conn: usize,
    version: i16,
    stamp: ProduceStamp,
    topic: &str,
    correlation: i32,
) -> (r: Flow<&'a ProducedRow>)
    ensures
        tape::read(r) == spec_produce_stamped(
            tape@,
            at as int,
            conn,
            version,
            stamp@,
            topic@,
            correlation,
        ),
{
    let on_batch = stamp.on_batch();
    assert(on_batch == stamp@.spec_on_batch());
    let (records, at) = encode(
        tape,
        at,
        Label::Named("transactional batch"),
        ActionOf::Encode { stamp: on_batch },
    )?;
    let (rows, at) = asks::ask_produce(
        tape,
        at,
        Label::Named("Produce"),
        ActionOf::Call {
            conn,
            version,
            correlation,
            request: RequestOf::Produce {
                topic: TopicOf::Name(String::from_str(topic)),
                partition: 0,
                acks: ALL_REPLICAS,
                transactional_id: stamp.transactional_id,
                records: tape::copy_bytes(records),
            },
        },
    )?;
    match first_row(rows) {
        None => Err(violation(String::from_str("Produce response names no partitions"), at)),
        Some(row) => Ok((row, at)),
    }
}

pub open spec fn spec_open_failed(last: Seq<char>, at: int) -> HaltView {
    tape::spec_fail(
        "a transactional produce to an announced partition failed with "@ + last,
        at,
    )
}

/// Writing the transaction's first batch, from the given attempt on: the
/// offset it landed at.
pub open spec fn spec_first_write(
    ctx: ServerCtx,
    tape: Seq<Event>,
    at: int,
    leader: usize,
    version: i16,
    actor: TxnActorOf<Seq<char>>,
    topic: Seq<char>,
    base: i32,
    attempt: int,
    last: Seq<char>,
) -> FlowView<i64>
    decreases ctx.config.spec_settle_attempts() - attempt,
{
    if attempt >= ctx.config.spec_settle_attempts() {
        Err(spec_open_failed(last, at))
    } else {
        match tape::spec_pause_between(tape, at, attempt) {
            Err(halt) => Err(halt),
            Ok((_, at)) => match tape::spec_doing(
                spec_produce_stamped(
                    tape,
                    at,
                    leader,
                    version,
                    batch::spec_transactional(actor, 0),
                    topic,
                    ctx::spec_correlation(base.wrapping_add(10), attempt),
                ),
                "Produce (transactional)"@,
            ) {
                Err(halt) => Err(halt),
                Ok((row, at)) => if row.error.ok() {
                    Ok((row.base_offset, at))
                } else if !flows::retriable_code(row.error.code) && row.error.code
                    != wire::CONCURRENT_TRANSACTIONS {
                    Err(spec_open_failed(row.error.shown@, at))
                } else {
                    spec_first_write(
                        ctx,
                        tape,
                        at,
                        leader,
                        version,
                        actor,
                        topic,
                        base,
                        attempt + 1,
                        row.error.shown@,
                    )
                },
            },
        }
    }
}

/// Announcing partition 0 of a topic and writing one transactional batch to
/// it: the offset the transaction starts at.
pub open spec fn spec_open_transaction(
    ctx: ServerCtx,
    tape: Seq<Event>,
    at: int,
    txn: usize,
    leader: usize,
    versions: TxnVersions,
    actor: TxnActorOf<Seq<char>>,
    topic: Seq<char>,
    base: i32,
) -> FlowView<i64> {
    match tape::spec_doing(
        spec_add_partitions(tape, at, txn, versions.add, actor, topic, base),
        "AddPartitionsToTxn"@,
    ) {
        Err(halt) => Err(halt),
        Ok((code, at)) => if !fine(code) {
            Err(tape::spec_fail("AddPartitionsToTxn answered "@ + (code->0).shown@, at))
        } else {
            spec_first_write(
                ctx,
                tape,
                at,
                leader,
                versions.produce,
                actor,
                topic,
                base,
                0,
                ""@,
            )
        },
    }
}

pub fn open_transaction(
    ctx: &ServerCtx,
    tape: &Vec<Event>,
    at: usize,
    txn: usize,
    leader: usize,
    versions: TxnVersions,
    actor: &TxnActor,
    topic: &str,
    base: i32,
) -> (r: Flow<i64>)
    ensures
        tape::ran(r) == spec_open_transaction(
            *ctx,
            tape@,
            at as int,
            txn,
            leader,
            versions,
            actor@,
            topic@,
            base,
        ),
{
    let (code, after) = doing_opt(
        add_partitions_to_txn(tape, at, txn, versions.add, actor, topic, base),
        "AddPartitionsToTxn",
    )?;
    if let Some(c) = code {
        if !c.is_ok() {
            return Err(
                fail(line("AddPartitionsToTxn answered ").lit(c.shown.as_str()).done(), after),
            );
        }
    }
    let attempts: u32 = ctx.config.settle_attempts();
    let mut last: String = String::from_str("");
    let mut here: usize = after;
    let mut attempt: u32 = 0;
    while attempt < attempts
        invariant
            attempt <= attempts,
            attempts == ctx.config.spec_settle_attempts(),
            spec_open_transaction(
                *ctx,
                tape@,
                at as int,
                txn,
                leader,
                versions,
                actor@,
                topic@,
                base,
            ) == spec_first_write(
                *ctx,
                tape@,
                here as int,
                leader,
                versions.produce,
                actor@,
                topic@,
                base,
                attempt as int,
                last@,
            ),
        decreases attempts - attempt,
    {
        let (_, next) = pause_between(tape, here, attempt)?;
        let (row, next) = doing_ref(
            produce_stamped(
                tape,
                next,
                leader,
                versions.produce,
                ProduceStamp::transactional(actor, 0),
                topic,
                correlation(base.wrapping_add(10), attempt),
            ),
            "Produce (transactional)",
        )?;
        if row.error.is_ok() {
            return Ok((row.base_offset, next));
        }
        last = row.error.shown.clone();
        if !retriable(row.error.code) && row.error.code != wire::CONCURRENT_TRANSACTIONS {
            return Err(
                fail(
                    line("a transactional produce to an announced partition failed with ").lit(
                        last.as_str(),
                    ).done(),
                    next,
                ),
            );
        }
        here = next;
        attempt = attempt + 1;
    }
    Err(
        fail(
            line("a transactional produce to an announced partition failed with ").lit(
                last.as_str(),
            ).done(),
            here,
        ),
    )
}

/// Reading as a committed reader from the transaction's first offset, from
/// the given attempt on, until the stable offset has moved past it: the last
/// thing that could be read, `None` if nothing ever could.
pub open spec fn spec_await_resolved(
    ctx: ServerCtx,
    tape: Seq<Event>,
    at: int,
    conn: usize,
    version: i16,
    topic: Seq<char>,
    first_offset: i64,
    base: i32,
    attempt: int,
    data: Option<FetchedRow>,
) -> FlowView<Option<FetchedRow>>
    decreases ctx.config.spec_recovery_attempts() - attempt,
{
    if attempt >= ctx.config.spec_recovery_attempts() {
        Ok((data, at))
    } else {
        match tape::spec_pause_between(tape, at, attempt) {
            Err(halt) => Err(halt),
            Ok((_, at)) => match log_flows::spec_fetch_partition(
                tape,
                at,
                conn,
                version,
                topic,
                0,
                first_offset,
                READ_COMMITTED,
                ctx::spec_correlation(base, attempt),
            ) {
                Ok((row, at)) => if row.last_stable_offset > first_offset {
                    Ok((Some(row), at))
                } else {
                    spec_await_resolved(
                        ctx,
                        tape,
                        at,
                        conn,
                        version,
                        topic,
                        first_offset,
                        base,
                        attempt + 1,
                        Some(row),
                    )
                },
                Err(HaltView::Broke(ErrorView::Violation(details), at)) =>
                    if log_flows::spec_still_resolving(details, ctx.names) {
                        spec_await_resolved(
                            ctx,
                            tape,
                            at,
                            conn,
                            version,
                            topic,
                            first_offset,
                            base,
                            attempt + 1,
                            data,
                        )
                    } else {
                        Err(
                            tape::spec_during(
                                tape::spec_violation(details, at),
                                "Fetch (read_committed)"@,
                            ),
                        )
                    },
                Err(halt) => Err(tape::spec_during(halt, "Fetch (read_committed)"@)),
            },
        }
    }
}

pub fn await_resolved<'a>(
    ctx: &ServerCtx,
    tape: &'a Vec<Event>,
    at: usize,
    conn: usize,
    version: i16,
    topic: &str,
    first_offset: i64,
    base: i32,
) -> (r: Flow<Option<&'a FetchedRow>>)
    ensures
        read_opt(r) == spec_await_resolved(
            *ctx,
            tape@,
            at as int,
            conn,
            version,
            topic@,
            first_offset,
            base,
            0,
            None,
        ),
{
    let attempts: u32 = ctx.config.recovery_attempts();
    let mut data: Option<&'a FetchedRow> = None;
    let mut here: usize = at;
    let mut attempt: u32 = 0;
    while attempt < attempts
        invariant
            attempt <= attempts,
            attempts == ctx.config.spec_recovery_attempts(),
            spec_await_resolved(
                *ctx,
                tape@,
                at as int,
                conn,
                version,
                topic@,
                first_offset,
                base,
                0,
                None,
            ) == spec_await_resolved(
                *ctx,
                tape@,
                here as int,
                conn,
                version,
                topic@,
                first_offset,
                base,
                attempt as int,
                find::found(data),
            ),
        decreases attempts - attempt,
    {
        let (_, next) = pause_between(tape, here, attempt)?;
        match fetch_partition(
            tape,
            next,
            conn,
            version,
            topic,
            0,
            first_offset,
            READ_COMMITTED,
            correlation(base, attempt),
        ) {
            Ok((row, next)) => {
                if row.last_stable_offset > first_offset {
                    return Ok((Some(row), next));
                }
                data = Some(row);
                here = next;
            },
            Err(Halt::Broke(CheckError::Violation(details), next)) => {
                if !still_resolving(details.as_str(), &ctx.names) {
                    return Err(
                        Halt::Broke(
                            CheckError::Violation(details).context("Fetch (read_committed)"),
                            next,
                        ),
                    );
                }
                here = next;
            },
            Err(Halt::Broke(error, next)) => return Err(
                Halt::Broke(error.context("Fetch (read_committed)"), next),
            ),
            Err(halt) => return Err(halt),
        }
        attempt = attempt + 1;
    }
    Ok((data, here))
}

/// The producers an answer names as aborted, nobody where it has no list.
pub open spec fn spec_aborted(row: FetchedRow) -> Seq<i64> {
    match row.aborted {
        Some(ids) => ids@,
        None => Seq::empty(),
    }
}

pub fn names_aborted(row: &FetchedRow, producer_id: i64) -> (r: bool)
    ensures
        r == spec_aborted(*row).contains(producer_id),
{
    match &row.aborted {
        Some(ids) => has_i64(ids, producer_id),
        None => false,
    }
}

pub fn count_aborted(row: &FetchedRow) -> (r: usize)
    ensures
        r == spec_aborted(*row).len(),
{
    match &row.aborted {
        Some(ids) => ids.len(),
        None => 0,
    }
}

/// What a committed reader must see of an aborted transaction: the stable
/// offset past its records, and its producer named as aborted. `None` is
/// where that holds.
pub open spec fn spec_judge_abort(
    data: Option<FetchedRow>,
    first_offset: i64,
    producer_id: i64,
    context: Seq<char>,
    recovery_budget: u64,
) -> Option<Seq<char>> {
    match data {
        None => Some(
            context + " nothing was readable at "@ + text::dec(first_offset as int) + " within "@
                + text::duration_text(recovery_budget)
                + ": every read_committed fetch was refused, so the transaction was never resolved"@,
        ),
        Some(row) => if row.last_stable_offset <= first_offset {
            Some(
                context + " the stable offset never moved past "@ + text::dec(first_offset as int)
                    + " (still "@ + text::dec(row.last_stable_offset as int)
                    + "), so the partition stays blocked on a transaction that has already finished"@,
            )
        } else if !spec_aborted(row).contains(producer_id) {
            Some(
                context + " a read_committed fetch over the aborted records named "@ + text::dec(
                    spec_aborted(row).len() as int,
                ) + " aborted transaction(s), none of them producer "@ + text::dec(
                    producer_id as int,
                )
                    + "; a client reading this partition has no way to know those records were thrown away"@,
            )
        } else {
            None
        },
    }
}

pub fn judge_abort(
    data: Option<&FetchedRow>,
    first_offset: i64,
    producer_id: i64,
    context: &str,
    recovery_budget: u64,
) -> (r: Option<String>)
    ensures
        wire::opt_view(r) == spec_judge_abort(
            find::found(data),
            first_offset,
            producer_id,
            context@,
            recovery_budget,
        ),
{
    match data {
        None => Some(
            line(context).lit(" nothing was readable at ").num(first_offset).lit(" within ").wait(
                recovery_budget,
            ).lit(
                ": every read_committed fetch was refused, so the transaction was never resolved",
            ).done(),
        ),
        Some(row) => if row.last_stable_offset <= first_offset {
            Some(
                line(context).lit(" the stable offset never moved past ").num(first_offset).lit(
                    " (still ",
                ).num(row.last_stable_offset).lit(
                    "), so the partition stays blocked on a transaction that has already finished",
                ).done(),
            )
        } else if !names_aborted(row, producer_id) {
            Some(
                line(context).lit(" a read_committed fetch over the aborted records named ").count(
                    count_aborted(row) as u128,
                ).lit(" aborted transaction(s), none of them producer ").num(producer_id).lit(
                    "; a client reading this partition has no way to know those records were thrown away",
                ).done(),
            )
        } else {
            None
        },
    }
}

/// Waiting for an abort marker to land, then confirming that a committed
/// reader is told of the abort.
pub open spec fn spec_await_abort_marker(
    ctx: ServerCtx,
    tape: Seq<Event>,
    at: int,
    conn: usize,
    version: i16,
    topic: Seq<char>,
    first_offset: i64,
    producer_id: i64,
    context: Seq<char>,
    base: i32,
) -> FlowView<()> {
    match spec_await_resolved(
        ctx,
        tape,
        at,
        conn,
        version,
        topic,
        first_offset,
        base,
        0,
        None,
    ) {
        Err(halt) => Err(halt),
        Ok((data, at)) => match spec_judge_abort(
            data,
            first_offset,
            producer_id,
            context,
            ctx.config.recovery_budget.nanos,
        ) {
            Some(details) => Err(tape::spec_fail(details, at)),
            None => Ok(((), at)),
        },
    }
}

pub fn await_abort_marker(
    ctx: &ServerCtx,
    tape: &Vec<Event>,
    at: usize,
    conn: usize,
    version: i16,
    topic: &str,
    first_offset: i64,
    producer_id: i64,
    context: &str,
    base: i32,
) -> (r: Flow<()>)
    ensures
        tape::ran(r) == spec_await_abort_marker(
            *ctx,
            tape@,
            at as int,
            conn,
            version,
            topic@,
            first_offset,
            producer_id,
            context@,
            base,
        ),
{
    let (data, at) = await_resolved(ctx, tape, at, conn, version, topic, first_offset, base)?;
    match judge_abort(
        data,
        first_offset,
        producer_id,
        context,
        ctx.config.recovery_budget.nanos,
    ) {
        Some(details) => Err(fail(details, at)),
        None => Ok(((), at)),
    }
}

/// Codes that tell a producer it has been superseded.
pub open spec fn fenced_code(code: i16) -> bool {
    code == wire::PRODUCER_FENCED || code == wire::INVALID_PRODUCER_EPOCH
}

pub fn is_fenced(code: i16) -> (r: bool)
    ensures
        r == fenced_code(code),
{
    code == wire::PRODUCER_FENCED || code == wire::INVALID_PRODUCER_EPOCH
}

/// Telling the coordinator that the transaction will also commit a group's
/// offsets.
pub open spec fn spec_add_offsets(
    tape: Seq<Event>,
    at: int,
    conn: usize,
    version: i16,
    actor: TxnActorOf<Seq<char>>,
    group: Seq<char>,
    correlation: i32,
) -> FlowView<ErrorCode> {
    asks::spec_ask_code(
        tape,
        at,
        Label::Named("AddOffsetsToTxn"@),
        ActionOf::Call {
            conn,
            version,
            correlation,
            request: RequestOf::AddOffsetsToTxn { actor, group },
        },
    )
}

pub fn add_offsets_to_txn<'a>(
    tape: &'a Vec<Event>,
    at: usize,
    conn: usize,
    version: i16,
    actor: &TxnActor,
    group: &str,
    correlation: i32,
) -> (r: Flow<&'a ErrorCode>)
    ensures
        tape::read(r) == spec_add_offsets(
            tape@,
            at as int,
            conn,
            version,
            actor@,
            group@,
            correlation,
        ),
{
    asks::ask_code(
        tape,
        at,
        Label::Named("AddOffsetsToTxn"),
        ActionOf::Call {
            conn,
            version,
            correlation,
            request: RequestOf::AddOffsetsToTxn {
                actor: actor.copy(),
                group: String::from_str(group),
            },
        },
    )
}

/// Committing an offset inside the transaction: the code of its entry.
pub open spec fn spec_txn_offset_commit(
    tape: Seq<Event>,
    at: int,
    conn: usize,
    version: i16,
    actor: TxnActorOf<Seq<char>>,
    group: Seq<char>,
    topic: Seq<char>,
    offset: i64,
    correlation: i32,
) -> FlowView<Option<ErrorCode>> {
    match asks::spec_ask_codes(
        tape,
        at,
        Label::Named("TxnOffsetCommit"@),
        ActionOf::Call {
            conn,
            version,
            correlation,
            request: RequestOf::TxnOffsetCommit { actor, group, topic, offset },
        },
    ) {
        Err(halt) => Err(halt),
        Ok((codes, at)) => Ok((find::first_of_first(codes@), at)),
    }
}

pub fn txn_offset_commit<'a>(
    tape: &'a Vec<Event>,
    at: usize,
    conn: usize,
    version: i16,
    actor: &TxnActor,
    group: &str,
    topic: &str,
    offset: i64,
    correlation: i32,
) -> (r: Flow<Option<&'a ErrorCode>>)
    ensures
        read_opt(r) == spec_txn_offset_commit(
            tape@,
            at as int,
            conn,
            version,
            actor@,
            group@,
            topic@,
            offset,
            correlation,
        ),
{
    let (codes, at) = asks::ask_codes(
        tape,
        at,
        Label::Named("TxnOffsetCommit"),
        ActionOf::Call {
            conn,
            version,
            correlation,
            request: RequestOf::TxnOffsetCommit {
                actor: actor.copy(),
                group: String::from_str(group),
                topic: String::from_str(topic),
                offset,
            },
        },
    )?;
    Ok((first_row(codes), at))
}

} // verus!

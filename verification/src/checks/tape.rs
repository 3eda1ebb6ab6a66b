//! How a check runs without touching a socket.
//!
//! A check is a function of its *tape*: everything the harness has reported
//! so far, in order. Read from the start, the tape either carries the check
//! to a verdict or runs out at the point where the check needs something
//! done; the check then says what. The harness does it, adds what came of
//! it to the tape, and asks again. So every decision a check makes is a
//! decision about values, and the same tape always gives the same one.

use vstd::prelude::*;
use vstd::string::*;

use crate::text::line;
use crate::wire::{RecordBatch, RequestOf, Response};
use crate::{Verdict, VerdictView};

verus! {

/// Why an exchange did not yield a validated answer: it could not be run, or
/// the subject misbehaved on the wire. The distinction is what keeps a flaky
/// network from reading as nonconformance.
#[derive(Debug)]
pub enum CheckError {
    /// The check could not run: connection refused, i/o failure, timeout.
    Infra(String),
    /// The subject violated the requirement under test.
    Violation(String),
}

/// An error by its characters.
#[verifier::ext_equal]
pub enum ErrorView {
    Infra(Seq<char>),
    Violation(Seq<char>),
}

impl View for CheckError {
    type V = ErrorView;

    open spec fn view(&self) -> ErrorView {
        match self {
            CheckError::Infra(d) => ErrorView::Infra(d@),
            CheckError::Violation(d) => ErrorView::Violation(d@),
        }
    }
}

impl ErrorView {
    pub open spec fn spec_context(self, what: Seq<char>) -> ErrorView {
        match self {
            ErrorView::Infra(d) => ErrorView::Infra(what + ": "@ + d),
            ErrorView::Violation(d) => ErrorView::Violation(what + ": "@ + d),
        }
    }

    pub open spec fn spec_details(self) -> Seq<char> {
        match self {
            ErrorView::Infra(d) => d,
            ErrorView::Violation(d) => d,
        }
    }

    pub open spec fn spec_verdict(self) -> VerdictView {
        match self {
            ErrorView::Infra(d) => VerdictView::Error(d),
            ErrorView::Violation(d) => VerdictView::Fail(d),
        }
    }
}

impl CheckError {
    /// The same error, said to have happened while doing `what`.
    pub fn context(self, what: &str) -> (r: CheckError)
        ensures
            r@ == self@.spec_context(what@),
    {
        match self {
            CheckError::Infra(d) => CheckError::Infra(line(what).lit(": ").lit(d.as_str()).done()),
            CheckError::Violation(d) =>
                CheckError::Violation(line(what).lit(": ").lit(d.as_str()).done()),
        }
    }

    /// What went wrong, without saying whose fault it was.
    pub fn details(&self) -> (r: &String)
        ensures
            r@ == self@.spec_details(),
    {
        match self {
            CheckError::Infra(d) => d,
            CheckError::Violation(d) => d,
        }
    }

    /// Infrastructure trouble is an error of the run; a violation is a
    /// failure of the subject.
    pub fn into_verdict(self) -> (r: Verdict)
        ensures
            r@ == self@.spec_verdict(),
    {
        match self {
            CheckError::Infra(details) => Verdict::Error { details },
            CheckError::Violation(details) => Verdict::Fail { details },
        }
    }

    /// The same error again.
    pub fn copy(&self) -> (r: CheckError)
        ensures
            r@ == self@,
    {
        match self {
            CheckError::Infra(d) => CheckError::Infra(d.clone()),
            CheckError::Violation(d) => CheckError::Violation(d.clone()),
        }
    }
}

/// What a produce stamps its batch with.
#[derive(Debug, Clone, Copy, PartialEq, Eq, Structural)]
pub struct BatchStamp {
    pub producer_id: i64,
    pub producer_epoch: i16,
    pub base_sequence: i32,
    pub transactional: bool,
}

/// One thing for the harness to do.
#[derive(Debug)]
pub enum ActionOf<S, B> {
    /// Open a connection.
    Connect { addr: S },
    /// Send a request and decode its answer, both at `version`, with the
    /// headers that version has.
    Call { conn: usize, version: i16, correlation: i32, request: RequestOf<S, B> },
    /// An ApiVersions exchange whose versions are all stated: the request
    /// body is encoded at `encode_at`, the answer has a v0 header and is
    /// decoded at `decode_at`.
    Probe {
        conn: usize,
        version: i16,
        request_header: i16,
        encode_at: i16,
        correlation: i32,
        decode_at: i16,
    },
    /// Send a request and wait for nothing.
    Send { conn: usize, version: i16, correlation: i32, request: RequestOf<S, B> },
    /// Read one frame.
    Read { conn: usize },
    /// Wait the settle delay.
    Pause,
    /// Read the clock.
    Stamp,
    /// Encode the probe batch under a stamp.
    Encode { stamp: BatchStamp },
    /// Encode the probe batch's records, without a batch around them.
    EncodeRecords,
    /// Encode the probe batch around a gzipped payload.
    EncodeGzip { payload: B },
    /// Decode a record set.
    Decode { bytes: B },
    /// Take a broker out of the cluster.
    Stop { node_id: i32, addr: S },
    /// Put it back.
    Start { node_id: i32, addr: S },
    /// Begin a SCRAM exchange as the suite's account.
    ScramFirst,
    /// Answer the server's first message.
    ScramFinal { server_first: S },
    /// Verify the server's last message.
    ScramVerify { server_final: S },
}

pub type Action = ActionOf<String, Vec<u8>>;

impl View for ActionOf<String, Vec<u8>> {
    type V = ActionOf<Seq<char>, Seq<u8>>;

    open spec fn view(&self) -> ActionOf<Seq<char>, Seq<u8>> {
        match *self {
            ActionOf::Connect { addr } => ActionOf::Connect { addr: addr@ },
            ActionOf::Call { conn, version, correlation, request } =>
                ActionOf::Call { conn, version, correlation, request: request@ },
            ActionOf::Probe {
                conn, version, request_header, encode_at, correlation, decode_at,
            } => ActionOf::Probe {
                conn,
                version,
                request_header,
                encode_at,
                correlation,
                decode_at,
            },
            ActionOf::Send { conn, version, correlation, request } =>
                ActionOf::Send { conn, version, correlation, request: request@ },
            ActionOf::Read { conn } => ActionOf::Read { conn },
            ActionOf::Pause => ActionOf::Pause,
            ActionOf::Stamp => ActionOf::Stamp,
            ActionOf::Encode { stamp } => ActionOf::Encode { stamp },
            ActionOf::EncodeRecords => ActionOf::EncodeRecords,
            ActionOf::EncodeGzip { payload } => ActionOf::EncodeGzip { payload: payload@ },
            ActionOf::Decode { bytes } => ActionOf::Decode { bytes: bytes@ },
            ActionOf::Stop { node_id, addr } => ActionOf::Stop { node_id, addr: addr@ },
            ActionOf::Start { node_id, addr } => ActionOf::Start { node_id, addr: addr@ },
            ActionOf::ScramFirst => ActionOf::ScramFirst,
            ActionOf::ScramFinal { server_first } =>
                ActionOf::ScramFinal { server_first: server_first@ },
            ActionOf::ScramVerify { server_final } =>
                ActionOf::ScramVerify { server_final: server_final@ },
        }
    }
}

/// What the SCRAM client made of the server's last message.
#[derive(Debug)]
pub enum ScramProof {
    Good,
    Unsigned,
    Bad(String),
}

/// One thing the harness reports.
#[derive(Debug)]
pub enum Event {
    /// A connection is open under this number.
    Connected(usize),
    /// A connection could not be opened.
    Refused(String),
    /// A validated answer, and how long it took.
    Answer { response: Response, nanos: u64 },
    /// The request, or the batch, could not be encoded.
    Unencodable(String),
    /// The exchange failed.
    Failed(CheckError),
    /// The request went out.
    Sent,
    /// A frame came in.
    Frame(Vec<u8>),
    /// The wait is over.
    Paused,
    /// Nanoseconds since the epoch.
    Stamped(u128),
    /// The encoded batch.
    Encoded(Vec<u8>),
    /// The decoded record set, or why it does not decode.
    Decoded(Result<Vec<RecordBatch>, String>),
    /// The broker was stopped or started, or why it was not.
    Controlled(Result<(), String>),
    /// What the SCRAM client says next, or why it cannot.
    Scram(Result<String, String>),
    /// Whether the server proved itself.
    Proved(ScramProof),
}

/// Why a flow does not go on.
#[derive(Debug)]
pub enum Halt {
    /// The tape ran out: this is what to do next.
    Ask(Action),
    /// The check is decided.
    Stop(Verdict, usize),
    /// Something failed, and the flow's caller may know what it means.
    Broke(CheckError, usize),
}

#[verifier::ext_equal]
pub enum HaltView {
    Ask(ActionOf<Seq<char>, Seq<u8>>),
    Stop(VerdictView, int),
    Broke(ErrorView, int),
}

impl View for Halt {
    type V = HaltView;

    open spec fn view(&self) -> HaltView {
        match self {
            Halt::Ask(action) => HaltView::Ask(action@),
            Halt::Stop(verdict, at) => HaltView::Stop(verdict@, *at as int),
            Halt::Broke(error, at) => HaltView::Broke(error@, *at as int),
        }
    }
}

/// A flow's result: a value and the place on the tape after it, or a halt.
pub type Flow<T> = Result<(T, usize), Halt>;

/// The same in specifications.
pub type FlowView<V> = Result<(V, int), HaltView>;

/// A flow's result in specifications.
pub open spec fn ran<T: View>(flow: Flow<T>) -> FlowView<T::V> {
    match flow {
        Ok((value, at)) => Ok((value@, at as int)),
        Err(halt) => Err(halt@),
    }
}

/// The same for a value borrowed from the tape.
pub open spec fn read<T>(flow: Flow<&T>) -> FlowView<T> {
    match flow {
        Ok((value, at)) => Ok((*value, at as int)),
        Err(halt) => Err(halt@),
    }
}

/// A result that halts or goes on in place, in specifications.
pub open spec fn held<T>(r: Result<T, Halt>) -> Result<T, HaltView> {
    match r {
        Ok(value) => Ok(value),
        Err(halt) => Err(halt@),
    }
}

/// What a check has come to: a verdict, or a thing to do first.
#[derive(Debug)]
pub enum Step {
    Ask(Action),
    Done(Verdict),
}

#[verifier::ext_equal]
pub enum StepView {
    Ask(ActionOf<Seq<char>, Seq<u8>>),
    Done(VerdictView),
}

impl View for Step {
    type V = StepView;

    open spec fn view(&self) -> StepView {
        match self {
            Step::Ask(action) => StepView::Ask(action@),
            Step::Done(verdict) => StepView::Done(verdict@),
        }
    }
}

/// How a whole check ends, given how its flow ended.
pub open spec fn spec_conclude(flow: FlowView<VerdictView>) -> StepView {
    match flow {
        Ok((verdict, at)) => StepView::Done(verdict),
        Err(HaltView::Ask(action)) => StepView::Ask(action),
        Err(HaltView::Stop(verdict, at)) => StepView::Done(verdict),
        Err(HaltView::Broke(error, at)) => StepView::Done(error.spec_verdict()),
    }
}

/// Turns a check's flow into its step.
pub fn conclude(flow: Flow<Verdict>) -> (r: Step)
    ensures
        r@ == spec_conclude(ran(flow)),
{
    match flow {
        Ok((verdict, _)) => Step::Done(verdict),
        Err(Halt::Ask(action)) => Step::Ask(action),
        Err(Halt::Stop(verdict, _)) => Step::Done(verdict),
        Err(Halt::Broke(error, _)) => Step::Done(error.into_verdict()),
    }
}

/// A flow whose every decided halt counts as a verdict reached.
pub open spec fn spec_settle(flow: FlowView<VerdictView>) -> FlowView<VerdictView> {
    match flow {
        Ok(done) => Ok(done),
        Err(HaltView::Ask(action)) => Err(HaltView::Ask(action)),
        Err(HaltView::Stop(verdict, at)) => Ok((verdict, at)),
        Err(HaltView::Broke(error, at)) => Ok((error.spec_verdict(), at)),
    }
}

/// Takes every end of a flow but a request for more for the verdict it
/// amounts to, so that a caller can go on after it.
pub fn settle(flow: Flow<Verdict>) -> (r: Flow<Verdict>)
    ensures
        ran(r) == spec_settle(ran(flow)),
{
    match flow {
        Ok(done) => Ok(done),
        Err(Halt::Ask(action)) => Err(Halt::Ask(action)),
        Err(Halt::Stop(verdict, at)) => Ok((verdict, at)),
        Err(Halt::Broke(error, at)) => Ok((error.into_verdict(), at)),
    }
}

/// A halt with what was being done added to its error.
pub open spec fn spec_during(halt: HaltView, what: Seq<char>) -> HaltView {
    match halt {
        HaltView::Broke(error, at) => HaltView::Broke(error.spec_context(what), at),
        other => other,
    }
}

/// A flow whose errors say what was being done.
pub open spec fn spec_doing<V>(flow: FlowView<V>, what: Seq<char>) -> FlowView<V> {
    match flow {
        Ok(done) => Ok(done),
        Err(halt) => Err(spec_during(halt, what)),
    }
}

/// Adds what was being done to a flow's error.
pub fn doing<T: View>(flow: Flow<T>, what: &str) -> (r: Flow<T>)
    ensures
        ran(r) == spec_doing(ran(flow), what@),
{
    match flow {
        Ok(done) => Ok(done),
        Err(Halt::Broke(error, at)) => Err(Halt::Broke(error.context(what), at)),
        Err(halt) => Err(halt),
    }
}

/// The same for a value borrowed from the tape.
pub fn doing_ref<'a, T>(flow: Flow<&'a T>, what: &str) -> (r: Flow<&'a T>)
    ensures
        read(r) == spec_doing(read(flow), what@),
{
    match flow {
        Ok(done) => Ok(done),
        Err(Halt::Broke(error, at)) => Err(Halt::Broke(error.context(what), at)),
        Err(halt) => Err(halt),
    }
}

/// A halt that ends the check in failure.
pub open spec fn spec_fail(details: Seq<char>, at: int) -> HaltView {
    HaltView::Stop(VerdictView::Fail(details), at)
}

pub open spec fn spec_skip(reason: Seq<char>, at: int) -> HaltView {
    HaltView::Stop(VerdictView::Skipped(reason), at)
}

pub open spec fn spec_error(details: Seq<char>, at: int) -> HaltView {
    HaltView::Stop(VerdictView::Error(details), at)
}

pub open spec fn spec_violation(details: Seq<char>, at: int) -> HaltView {
    HaltView::Broke(ErrorView::Violation(details), at)
}

pub open spec fn spec_infra(details: Seq<char>, at: int) -> HaltView {
    HaltView::Broke(ErrorView::Infra(details), at)
}

/// A verdict on what was just seen: a pass ends the check, and so does
/// anything else, with nothing after it.
pub open spec fn spec_rule(verdict: VerdictView, at: int) -> FlowView<VerdictView> {
    if verdict is Pass {
        Ok((verdict, at))
    } else {
        Err(HaltView::Stop(verdict, at))
    }
}

pub fn fail(details: String, at: usize) -> (r: Halt)
    ensures
        r@ == spec_fail(details@, at as int),
{
    Halt::Stop(Verdict::Fail { details }, at)
}

pub fn skip(reason: String, at: usize) -> (r: Halt)
    ensures
        r@ == spec_skip(reason@, at as int),
{
    Halt::Stop(Verdict::Skipped { reason }, at)
}

pub fn error(details: String, at: usize) -> (r: Halt)
    ensures
        r@ == spec_error(details@, at as int),
{
    Halt::Stop(Verdict::Error { details }, at)
}

pub fn violation(details: String, at: usize) -> (r: Halt)
    ensures
        r@ == spec_violation(details@, at as int),
{
    Halt::Broke(CheckError::Violation(details), at)
}

pub fn infra(details: String, at: usize) -> (r: Halt)
    ensures
        r@ == spec_infra(details@, at as int),
{
    Halt::Broke(CheckError::Infra(details), at)
}

/// The harness reported something other than what it was asked for.
pub open spec fn spec_astray(at: int) -> HaltView {
    spec_infra("the harness answered out of turn"@, at)
}

pub fn astray(at: usize) -> (r: Halt)
    ensures
        r@ == spec_astray(at as int),
{
    infra(String::from_str("the harness answered out of turn"), at)
}

/// Opening a connection to `addr`.
pub open spec fn spec_connect(tape: Seq<Event>, at: int, addr: Seq<char>) -> FlowView<usize> {
    if !(0 <= at < tape.len()) {
        Err(HaltView::Ask(ActionOf::Connect { addr }))
    } else {
        match tape[at] {
            Event::Connected(conn) => Ok((conn, at + 1)),
            Event::Refused(e) => Err(spec_infra("connect "@ + addr + ": "@ + e@, at + 1)),
            _ => Err(spec_astray(at + 1)),
        }
    }
}

pub fn connect(tape: &Vec<Event>, at: usize, addr: &str) -> (r: Flow<usize>)
    ensures
        ran(r) == spec_connect(tape@, at as int, addr@),
{
    if at >= tape.len() {
        return Err(Halt::Ask(ActionOf::Connect { addr: String::from_str(addr) }));
    }
    match &tape[at] {
        Event::Connected(conn) => Ok((*conn, at + 1)),
        Event::Refused(e) => Err(
            infra(line("connect ").lit(addr).lit(": ").lit(e.as_str()).done(), at + 1),
        ),
        _ => Err(astray(at + 1)),
    }
}

/// One exchange: what the tape holds for it, where `label` names the request
/// in the message of a failed encoding.
pub open spec fn spec_call(
    tape: Seq<Event>,
    at: int,
    label: Label<Seq<char>>,
    call: ActionOf<Seq<char>, Seq<u8>>,
) -> FlowView<Response> {
    if !(0 <= at < tape.len()) {
        Err(HaltView::Ask(call))
    } else {
        match tape[at] {
            Event::Answer { response, nanos } => Ok((response, at + 1)),
            Event::Unencodable(e) => Err(spec_unencodable(label, e@, at + 1)),
            Event::Failed(e) => Err(HaltView::Broke(e@, at + 1)),
            _ => Err(spec_astray(at + 1)),
        }
    }
}

/// How a failed encoding of the suite's own request is reported.
#[derive(Debug, Clone, Copy)]
pub enum Label<S> {
    /// As it is, ending the check.
    Plain,
    /// Naming the request, ending the check.
    Final(S),
    /// Naming the request, as an error of the exchange.
    Named(S),
}

impl<'a> View for Label<&'a str> {
    type V = Label<Seq<char>>;

    open spec fn view(&self) -> Label<Seq<char>> {
        match *self {
            Label::Plain => Label::Plain,
            Label::Final(api) => Label::Final(api@),
            Label::Named(api) => Label::Named(api@),
        }
    }
}

pub open spec fn spec_unencodable(label: Label<Seq<char>>, e: Seq<char>, at: int) -> HaltView {
    match label {
        Label::Plain => spec_error(e, at),
        Label::Final(api) => spec_error("encoding "@ + api + ": "@ + e, at),
        Label::Named(api) => spec_infra("encoding "@ + api + ": "@ + e, at),
    }
}

fn unencodable(label: Label<&str>, e: &str, at: usize) -> (r: Halt)
    ensures
        r@ == spec_unencodable(label@, e@, at as int),
{
    match label {
        Label::Plain => error(String::from_str(e), at),
        Label::Final(api) => error(line("encoding ").lit(api).lit(": ").lit(e).done(), at),
        Label::Named(api) => infra(line("encoding ").lit(api).lit(": ").lit(e).done(), at),
    }
}

pub fn call<'a>(tape: &'a Vec<Event>, at: usize, label: Label<&str>, action: Action) -> (r: Flow<
    &'a Response,
>)
    ensures
        read(r) == spec_call(tape@, at as int, label@, action@),
{
    if at >= tape.len() {
        return Err(Halt::Ask(action));
    }
    match &tape[at] {
        Event::Answer { response, .. } => Ok((response, at + 1)),
        Event::Unencodable(e) => Err(unencodable(label, e.as_str(), at + 1)),
        Event::Failed(e) => Err(Halt::Broke(e.copy(), at + 1)),
        _ => Err(astray(at + 1)),
    }
}

/// How long the exchange at this place of the tape took.
pub open spec fn spec_took(tape: Seq<Event>, at: int) -> u64 {
    if 0 <= at < tape.len() {
        match tape[at] {
            Event::Answer { response, nanos } => nanos,
            _ => 0,
        }
    } else {
        0
    }
}

pub fn took(tape: &Vec<Event>, at: usize) -> (r: u64)
    ensures
        r == spec_took(tape@, at as int),
{
    if at >= tape.len() {
        return 0;
    }
    match &tape[at] {
        Event::Answer { nanos, .. } => *nanos,
        _ => 0,
    }
}

/// A wait of the settle delay.
pub open spec fn spec_pause(tape: Seq<Event>, at: int) -> FlowView<()> {
    if !(0 <= at < tape.len()) {
        Err(HaltView::Ask(ActionOf::Pause))
    } else {
        match tape[at] {
            Event::Paused => Ok(((), at + 1)),
            _ => Err(spec_astray(at + 1)),
        }
    }
}

pub fn pause(tape: &Vec<Event>, at: usize) -> (r: Flow<()>)
    ensures
        ran(r) == spec_pause(tape@, at as int),
{
    if at >= tape.len() {
        return Err(Halt::Ask(ActionOf::Pause));
    }
    match &tape[at] {
        Event::Paused => Ok(((), at + 1)),
        _ => Err(astray(at + 1)),
    }
}

/// The wait before every attempt but the first.
pub open spec fn spec_pause_between(tape: Seq<Event>, at: int, attempt: int) -> FlowView<()> {
    if attempt > 0 {
        spec_pause(tape, at)
    } else {
        Ok(((), at))
    }
}

pub fn pause_between(tape: &Vec<Event>, at: usize, attempt: u32) -> (r: Flow<()>)
    ensures
        ran(r) == spec_pause_between(tape@, at as int, attempt as int),
{
    if attempt > 0 {
        pause(tape, at)
    } else {
        Ok(((), at))
    }
}

/// A reading of the clock.
pub open spec fn spec_stamp(tape: Seq<Event>, at: int) -> FlowView<u128> {
    if !(0 <= at < tape.len()) {
        Err(HaltView::Ask(ActionOf::Stamp))
    } else {
        match tape[at] {
            Event::Stamped(nanos) => Ok((nanos, at + 1)),
            _ => Err(spec_astray(at + 1)),
        }
    }
}

pub fn stamp(tape: &Vec<Event>, at: usize) -> (r: Flow<u128>)
    ensures
        ran(r) == spec_stamp(tape@, at as int),
{
    if at >= tape.len() {
        return Err(Halt::Ask(ActionOf::Stamp));
    }
    match &tape[at] {
        Event::Stamped(nanos) => Ok((*nanos, at + 1)),
        _ => Err(astray(at + 1)),
    }
}

/// The encoding of a probe batch.
pub open spec fn spec_encode(
    tape: Seq<Event>,
    at: int,
    label: Label<Seq<char>>,
    action: ActionOf<Seq<char>, Seq<u8>>,
) -> FlowView<Vec<u8>> {
    if !(0 <= at < tape.len()) {
        Err(HaltView::Ask(action))
    } else {
        match tape[at] {
            Event::Encoded(bytes) => Ok((bytes, at + 1)),
            Event::Unencodable(e) => Err(spec_unencodable(label, e@, at + 1)),
            _ => Err(spec_astray(at + 1)),
        }
    }
}

pub fn encode<'a>(tape: &'a Vec<Event>, at: usize, label: Label<&str>, action: Action) -> (r: Flow<
    &'a Vec<u8>,
>)
    ensures
        read(r) == spec_encode(tape@, at as int, label@, action@),
{
    if at >= tape.len() {
        return Err(Halt::Ask(action));
    }
    match &tape[at] {
        Event::Encoded(bytes) => Ok((bytes, at + 1)),
        Event::Unencodable(e) => Err(unencodable(label, e.as_str(), at + 1)),
        _ => Err(astray(at + 1)),
    }
}

/// A request that nothing is waited for after.
pub open spec fn spec_send(
    tape: Seq<Event>,
    at: int,
    label: Label<Seq<char>>,
    what: Seq<char>,
    action: ActionOf<Seq<char>, Seq<u8>>,
) -> FlowView<()> {
    if !(0 <= at < tape.len()) {
        Err(HaltView::Ask(action))
    } else {
        match tape[at] {
            Event::Sent => Ok(((), at + 1)),
            Event::Unencodable(e) => Err(spec_unencodable(label, e@, at + 1)),
            Event::Failed(error) => Err(spec_error(error@.spec_details(), at + 1)),
            Event::Refused(e) => Err(spec_error(what + ": "@ + e@, at + 1)),
            _ => Err(spec_astray(at + 1)),
        }
    }
}

/// Sends a request and waits for nothing. A wire failure is reported as
/// having happened while doing `what`.
pub fn send(tape: &Vec<Event>, at: usize, label: Label<&str>, what: &str, action: Action) -> (r:
    Flow<()>)
    ensures
        ran(r) == spec_send(tape@, at as int, label@, what@, action@),
{
    if at >= tape.len() {
        return Err(Halt::Ask(action));
    }
    match &tape[at] {
        Event::Sent => Ok(((), at + 1)),
        Event::Unencodable(e) => Err(unencodable(label, e.as_str(), at + 1)),
        Event::Failed(e) => Err(error(e.details().clone(), at + 1)),
        Event::Refused(e) => Err(error(line(what).lit(": ").lit(e.as_str()).done(), at + 1)),
        _ => Err(astray(at + 1)),
    }
}

/// One frame read off a connection, whatever it answers.
pub open spec fn spec_read_frame(tape: Seq<Event>, at: int, what: Seq<char>, conn: usize)
    -> FlowView<Vec<u8>> {
    if !(0 <= at < tape.len()) {
        Err(HaltView::Ask(ActionOf::Read { conn }))
    } else {
        match tape[at] {
            Event::Frame(bytes) => Ok((bytes, at + 1)),
            Event::Refused(e) => Err(spec_error(what + ": "@ + e@, at + 1)),
            _ => Err(spec_astray(at + 1)),
        }
    }
}

/// Reads one frame, whatever it answers.
pub fn read_frame<'a>(tape: &'a Vec<Event>, at: usize, what: &str, conn: usize) -> (r: Flow<
    &'a Vec<u8>,
>)
    ensures
        read(r) == spec_read_frame(tape@, at as int, what@, conn),
{
    if at >= tape.len() {
        return Err(Halt::Ask(ActionOf::Read { conn }));
    }
    match &tape[at] {
        Event::Frame(bytes) => Ok((bytes, at + 1)),
        Event::Refused(e) => Err(error(line(what).lit(": ").lit(e.as_str()).done(), at + 1)),
        _ => Err(astray(at + 1)),
    }
}

/// The decoding of a record set.
pub open spec fn spec_decode(tape: Seq<Event>, at: int, bytes: Seq<u8>) -> FlowView<
    Result<Vec<RecordBatch>, String>,
> {
    if !(0 <= at < tape.len()) {
        Err(HaltView::Ask(ActionOf::Decode { bytes }))
    } else {
        match tape[at] {
            Event::Decoded(decoded) => Ok((decoded, at + 1)),
            _ => Err(spec_astray(at + 1)),
        }
    }
}

pub fn decode<'a>(tape: &'a Vec<Event>, at: usize, bytes: &Vec<u8>) -> (r: Flow<
    &'a Result<Vec<RecordBatch>, String>,
>)
    ensures
        read(r) == spec_decode(tape@, at as int, bytes@),
{
    if at >= tape.len() {
        return Err(Halt::Ask(ActionOf::Decode { bytes: copy_bytes(bytes) }));
    }
    match &tape[at] {
        Event::Decoded(decoded) => Ok((decoded, at + 1)),
        _ => Err(astray(at + 1)),
    }
}

/// Stopping or starting a broker.
pub open spec fn spec_control(
    tape: Seq<Event>,
    at: int,
    action: ActionOf<Seq<char>, Seq<u8>>,
) -> FlowView<Result<(), String>> {
    if !(0 <= at < tape.len()) {
        Err(HaltView::Ask(action))
    } else {
        match tape[at] {
            Event::Controlled(done) => Ok((done, at + 1)),
            _ => Err(spec_astray(at + 1)),
        }
    }
}

pub fn control<'a>(tape: &'a Vec<Event>, at: usize, action: Action) -> (r: Flow<
    &'a Result<(), String>,
>)
    ensures
        read(r) == spec_control(tape@, at as int, action@),
{
    if at >= tape.len() {
        return Err(Halt::Ask(action));
    }
    match &tape[at] {
        Event::Controlled(done) => Ok((done, at + 1)),
        _ => Err(astray(at + 1)),
    }
}

/// The next word of the SCRAM client.
pub open spec fn spec_scram(
    tape: Seq<Event>,
    at: int,
    action: ActionOf<Seq<char>, Seq<u8>>,
) -> FlowView<Result<String, String>> {
    if !(0 <= at < tape.len()) {
        Err(HaltView::Ask(action))
    } else {
        match tape[at] {
            Event::Scram(said) => Ok((said, at + 1)),
            _ => Err(spec_astray(at + 1)),
        }
    }
}

pub fn scram<'a>(tape: &'a Vec<Event>, at: usize, action: Action) -> (r: Flow<
    &'a Result<String, String>,
>)
    ensures
        read(r) == spec_scram(tape@, at as int, action@),
{
    if at >= tape.len() {
        return Err(Halt::Ask(action));
    }
    match &tape[at] {
        Event::Scram(said) => Ok((said, at + 1)),
        _ => Err(astray(at + 1)),
    }
}

/// The SCRAM client's opinion of the server's last message.
pub open spec fn spec_proof_of(tape: Seq<Event>, at: int, server_final: Seq<char>) -> FlowView<
    ScramProof,
> {
    if !(0 <= at < tape.len()) {
        Err(HaltView::Ask(ActionOf::ScramVerify { server_final }))
    } else {
        match tape[at] {
            Event::Proved(p) => Ok((p, at + 1)),
            _ => Err(spec_astray(at + 1)),
        }
    }
}

pub fn proof_of<'a>(tape: &'a Vec<Event>, at: usize, server_final: &String) -> (r: Flow<
    &'a ScramProof,
>)
    ensures
        read(r) == spec_proof_of(tape@, at as int, server_final@),
{
    if at >= tape.len() {
        return Err(Halt::Ask(ActionOf::ScramVerify { server_final: server_final.clone() }));
    }
    match &tape[at] {
        Event::Proved(p) => Ok((p, at + 1)),
        _ => Err(astray(at + 1)),
    }
}

/// The same bytes again.
pub fn copy_bytes(bytes: &Vec<u8>) -> (r: Vec<u8>)
    ensures
        r@ == bytes@,
{
    let mut out: Vec<u8> = Vec::new();
    let mut i: usize = 0;
    while i < bytes.len()
        invariant
            i <= bytes@.len(),
            out@ == bytes@.take(i as int),
        decreases bytes@.len() - i,
    {
        out.push(bytes[i]);
        assert(out@ =~= bytes@.take(i + 1));
        i = i + 1;
    }
    assert(bytes@.take(i as int) =~= bytes@);
    out
}

} // verus!

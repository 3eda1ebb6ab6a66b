//! What the checks ask where the verdict rests on the question as much as on the
//! answer.

use vstd::prelude::*;
use vstd::string::*;

use crate::checks::calibration_sasl;
use crate::checks::ctx;
use crate::checks::ctx::ServerCtx;
use crate::checks::find;
use crate::checks::flows;
use crate::checks::flows::{Addressing, ProducedView};
use crate::checks::server;
use crate::checks::server::{Reading, ServerCheck};
use crate::checks::server_basic;
use crate::checks::server_log;
use crate::checks::server_sasl;
use crate::checks::tape;
use crate::checks::tape::{ActionOf, ErrorView, Event, FlowView, HaltView, Label};
use crate::checks::txn_flows;
use crate::checks::verdicts;
use crate::checks::verdicts_log;
use crate::raw::WireError;
use crate::text;
use crate::wire;
use crate::wire::{RequestOf, Response, TopicOf};
use crate::VerdictView;

verus! {

/// Whether a flow asks for one byte from an offset of a topic on, and would have
/// the subject wait for it half a second.
pub open spec fn polls(
    flow: FlowView<VerdictView>,
    conn: usize,
    topic: Seq<char>,
    offset: i64,
) -> bool {
    flow matches Err(
        HaltView::Ask(
            ActionOf::Call {
                conn: asked,
                request: RequestOf::Fetch {
                    topic: TopicOf::Name(name),
                    partition,
                    offset: from,
                    max_wait_ms,
                    min_bytes,
                    ..
                },
                ..
            },
        ),
    ) && asked == conn && name == topic && partition == 0 && from == offset && max_wait_ms == 500
        && min_bytes == 1
}

/// The long poll asks twice: at the log's end, which is after the two records
/// that were written, and once that was waited for at its start.
#[verifier::rlimit(60)]
#[verifier::spinoff_prover]
pub proof fn law_long_polls_ask_at_both_ends(
    ctx: ServerCtx,
    tape: Seq<Event>,
    produced: ProducedView,
    at: int,
)
    requires
        ctx.spec_version(0, "Fetch"@, wire::FETCH, ctx.schema.fetch.min, flows::FETCH_NAME_MAX)
            is Ok,
        flows::spec_produce_flow(ctx, tape, 0, "longpoll"@, Addressing::Name) == Ok::<
            (ProducedView, int),
            HaltView,
        >((produced, at)),
        0 <= at,
    ensures
        tape.len() == at ==> polls(
            ServerCheck::FetchLongPollContract.spec_flow(ctx, tape),
            produced.conn,
            produced.topic,
            2,
        ),
        tape.len() == at + 1 && (verdicts::answer_at(tape, at) matches Some(Response::Fetch(_)))
            && verdicts::took_at(tape, at)->Some_0 >= 250_000_000 ==> polls(
            ServerCheck::FetchLongPollContract.spec_flow(ctx, tape),
            produced.conn,
            produced.topic,
            0,
        ),
{
}

/// Whether a flow looks a time up in a topic's log.
pub open spec fn looks_up(
    flow: FlowView<VerdictView>,
    conn: usize,
    topic: Seq<char>,
    timestamp: i64,
) -> bool {
    flow matches Err(
        HaltView::Ask(
            ActionOf::Call {
                conn: asked,
                request: RequestOf::ListOffsets { topic: name, timestamp: time },
                ..
            },
        ),
    ) && asked == conn && name == topic && time == timestamp
}

/// The seek by time asks twice: for the time of the first record that was
/// written, and once that was found for a time after the last.
#[verifier::rlimit(60)]
#[verifier::spinoff_prover]
pub proof fn law_seeks_by_time_ask_for_both(
    ctx: ServerCtx,
    tape: Seq<Event>,
    produced: ProducedView,
    at: int,
)
    requires
        ctx.spec_version(0, "ListOffsets"@, wire::LIST_OFFSETS, 1, ctx.schema.list_offsets.max)
            is Ok,
        flows::spec_produce_flow(ctx, tape, 0, "bytime"@, Addressing::Name) == Ok::<
            (ProducedView, int),
            HaltView,
        >((produced, at)),
        0 <= at,
    ensures
        tape.len() == at ==> looks_up(
            ServerCheck::ListOffsetsByTimestamp.spec_flow(ctx, tape),
            produced.conn,
            produced.topic,
            1_758_000_000_000,
        ),
        tape.len() == at + 1 && verdicts_log::offset_at(tape, at) == Some(0i64) ==> exists|time: i64|
            time > 1_758_000_000_001 && #[trigger] looks_up(
                ServerCheck::ListOffsetsByTimestamp.spec_flow(ctx, tape),
                produced.conn,
                produced.topic,
                time,
            ),
{
    if tape.len() == at + 1 && verdicts_log::offset_at(tape, at) == Some(0i64) {
        assert(looks_up(
            ServerCheck::ListOffsetsByTimestamp.spec_flow(ctx, tape),
            produced.conn,
            produced.topic,
            server_log::AFTER_EVERY_RECORD,
        ));
    }
}

/// Whether a flow hands over a token.
pub open spec fn hands_over(flow: FlowView<VerdictView>, conn: usize, token: Seq<u8>) -> bool {
    flow matches Err(
        HaltView::Ask(
            ActionOf::Call { conn: asked, request: RequestOf::SaslAuthenticate { token: given }, .. },
        ),
    ) && asked == conn && given == token
}

/// Whether a flow offers a mechanism.
pub open spec fn offers(flow: FlowView<VerdictView>, conn: usize, mechanism: Seq<char>) -> bool {
    flow matches Err(
        HaltView::Ask(
            ActionOf::Call { conn: asked, request: RequestOf::SaslHandshake { mechanism: name }, .. },
        ),
    ) && asked == conn && name == mechanism
}

/// The two checks on the server's first message go to the SASL listener, offer
/// SCRAM with SHA-256 there, and open with a nonce of their own: the one that
/// the server's is then held against.
pub proof fn law_exchanges_open_with_their_nonce(
    ctx: ServerCtx,
    tape: Seq<Event>,
    conn: usize,
    base: i32,
)
    requires
        base == 210 || base == 220,
        ctx.sasl_addr is Some,
        server_sasl::spec_handshake_version(ctx) is Ok,
        server_sasl::spec_auth_version(ctx) is Ok,
        tape.len() > 0 ==> tape[0] == Event::Connected(conn),
    ensures
        ({
            let flow = if base == 210 {
                ServerCheck::ScramNonceExtendsClient.spec_flow(ctx, tape)
            } else {
                ServerCheck::ScramIterationFloor.spec_flow(ctx, tape)
            };
            let nonce = "odradekNonce"@ + text::dec(ctx.pid as int) + text::dec(base as int);
            &&& tape.len() == 0 ==> flow == Err::<(VerdictView, int), HaltView>(
                HaltView::Ask(ActionOf::Connect { addr: ctx.sasl_addr->Some_0@ }),
            )
            &&& tape.len() == 1 ==> offers(flow, conn, "SCRAM-SHA-256"@)
            &&& tape.len() == 2 && (verdicts::answer_at(tape, 1) matches Some(
                Response::SaslHandshake(answer),
            ) && answer.error.code == 0) ==> hands_over(
                flow,
                conn,
                vstd::utf8::encode_utf8("n,,n=conformance,r="@ + nonce),
            )
        }),
{
}

/// The check on the server's signature hands the server what the client says,
/// and has the client verify what the server said last.
pub proof fn law_signatures_are_verified(
    ctx: ServerCtx,
    tape: Seq<Event>,
    client_first: String,
    client_final: String,
    conn: usize,
)
    requires
        ctx.sasl_addr is Some,
        server_sasl::spec_handshake_version(ctx) is Ok,
        server_sasl::spec_auth_version(ctx) is Ok,
        tape.len() > 0 ==> tape[0] == Event::Scram(Ok::<String, String>(client_first)),
        tape.len() > 1 ==> tape[1] == Event::Connected(conn),
        tape.len() > 2 ==> (verdicts::answer_at(tape, 2) matches Some(
            Response::SaslHandshake(answer),
        ) && answer.error.code == 0),
        tape.len() > 3 ==> (verdicts::answer_at(tape, 3) matches Some(
            Response::SaslAuthenticate(answer),
        ) && answer.error.code == 0),
        tape.len() > 4 ==> tape[4] == Event::Scram(Ok::<String, String>(client_final)),
        tape.len() > 5 ==> (verdicts::answer_at(tape, 5) matches Some(
            Response::SaslAuthenticate(answer),
        ) && answer.error.code == 0),
    ensures
        ({
            let flow = ServerCheck::ScramServerProvesItself.spec_flow(ctx, tape);
            &&& tape.len() == 0 ==> flow == Err::<(VerdictView, int), HaltView>(
                HaltView::Ask(ActionOf::ScramFirst),
            )
            &&& tape.len() == 1 ==> flow == Err::<(VerdictView, int), HaltView>(
                HaltView::Ask(ActionOf::Connect { addr: ctx.sasl_addr->Some_0@ }),
            )
            &&& tape.len() == 2 ==> offers(flow, conn, "SCRAM-SHA-256"@)
            &&& tape.len() == 3 ==> hands_over(
                flow,
                conn,
                vstd::utf8::encode_utf8(client_first@),
            )
            &&& tape.len() == 4 ==> flow == Err::<(VerdictView, int), HaltView>(
                HaltView::Ask(
                    ActionOf::ScramFinal {
                        server_first: text::utf8_lossy(
                            verdicts::answer_at(
                                tape,
                                3,
                            )->Some_0->SaslAuthenticate_0.auth_bytes@,
                        ),
                    },
                ),
            )
            &&& tape.len() == 5 ==> hands_over(
                flow,
                conn,
                vstd::utf8::encode_utf8(client_final@),
            )
            &&& tape.len() == 6 ==> flow == Err::<(VerdictView, int), HaltView>(
                HaltView::Ask(
                    ActionOf::ScramVerify {
                        server_final: text::utf8_lossy(
                            verdicts::answer_at(
                                tape,
                                5,
                            )->Some_0->SaslAuthenticate_0.auth_bytes@,
                        ),
                    },
                ),
            )
        }),
{
}

/// An attribute of a SCRAM message, however many there are and in whatever
/// order: it is what follows the first part with its key.
pub proof fn law_attributes_are_found(parts: Seq<Seq<char>>, key: char, j: int)
    requires
        parts.len() > 0,
        forall|i: int| 0 <= i < parts.len() ==> calibration_sasl::is_plain(#[trigger] parts[i]),
    ensures
        ({
            let message = text::joined(parts, ","@);
            &&& (0 <= j < parts.len() && parts[j].len() >= 2 && parts[j][0] == key && parts[j][1]
                == '=' && forall|k: int|
                0 <= k < j ==> !((#[trigger] parts[k]).len() >= 2 && parts[k][0] == key
                    && parts[k][1] == '=')) ==> server_sasl::spec_scram_attr(message, key) == Some(
                parts[j].skip(2),
            )
            &&& (forall|k: int|
                0 <= k < parts.len() ==> !((#[trigger] parts[k]).len() >= 2 && parts[k][0] == key
                    && parts[k][1] == '=')) ==> server_sasl::spec_scram_attr(message, key) is None
        }),
{
    calibration_sasl::lemma_split_undoes_join(parts);
    if 0 <= j < parts.len() && parts[j].len() >= 2 && parts[j][0] == key && parts[j][1] == '=' && (
    forall|k: int|
        0 <= k < j ==> !((#[trigger] parts[k]).len() >= 2 && parts[k][0] == key && parts[k][1]
            == '=')) {
        calibration_sasl::lemma_first_attr(parts, key, j);
    }
    if forall|k: int|
        0 <= k < parts.len() ==> !((#[trigger] parts[k]).len() >= 2 && parts[k][0] == key
            && parts[k][1] == '=') {
        lemma_no_attr(parts, key);
    }
}

proof fn lemma_no_attr(parts: Seq<Seq<char>>, key: char)
    requires
        forall|k: int|
            0 <= k < parts.len() ==> !((#[trigger] parts[k]).len() >= 2 && parts[k][0] == key
                && parts[k][1] == '='),
    ensures
        server_sasl::attr_in(parts, key) is None,
    decreases parts.len(),
{
    if parts.len() > 0 {
        assert(!(parts[0].len() >= 2 && parts[0][0] == key && parts[0][1] == '='));
        let rest = parts.skip(1);
        assert forall|k: int| 0 <= k < rest.len() implies !((#[trigger] rest[k]).len() >= 2
            && rest[k][0] == key && rest[k][1] == '=') by {
            assert(rest[k] == parts[k + 1]);
        }
        lemma_no_attr(rest, key);
    }
}

/// An answer is taken exactly if it echoes the number that was sent, its header
/// and its body decode, and nothing is left over; otherwise the subject broke
/// the protocol.
pub proof fn law_readings_are_judged(
    sent: i32,
    header_version: i16,
    decode_at: i16,
    reading: Reading,
)
    ensures
        ({
            let judged = server::spec_judge_reading(sent, header_version, decode_at, reading);
            if reading.echoed == Some(sent) && reading.header is Ok && reading.body is Ok
                && reading.trailing == 0 {
                judged == Ok::<Response, ErrorView>(reading.body->Ok_0)
            } else {
                judged matches Err(ErrorView::Violation(_))
            }
        }),
{
}

/// What goes wrong on the way is the subject's doing exactly if a frame's length
/// cannot be one; anything else is kept from counting against it.
pub proof fn law_wire_errors_are_told_apart(error: WireError)
    ensures
        server::spec_from_wire(error) is Violation <==> error is BadFrameLength,
        server::spec_from_wire(error) is Infra <==> !(error is BadFrameLength),
{
}

/// The codes that are waited out, told by their numbers: those of a partition on
/// its way, of a coordinator on its way, and the two that tell a producer it has
/// been fenced.
pub proof fn law_codes_are_told_apart(code: i16)
    ensures
        flows::retriable_code(code) <==> code == 3 || code == 5 || code == 6 || code == 100,
        find::settling_code(code) <==> code == 14 || code == 15,
        txn_flows::txn_settling_code(code) <==> code == 14 || code == 15 || code == 16,
        txn_flows::fenced_code(code) <==> code == 47 || code == 90,
{
}

/// A broker or a coordinator can be reached at any port but 0, and under any
/// name but the empty one.
pub proof fn law_places_are_told_apart(host: Seq<char>, port: i32)
    ensures
        find::reachable(host, port) <==> host.len() > 0 && 0 < port < 65536,
{
}

/// An error keeps its kind whatever it is said to have happened during, and the
/// kind decides: what the subject broke is a failure, and what kept the suite
/// from looking is an error.
pub proof fn law_errors_keep_their_kind(error: ErrorView, what: Seq<char>, version: i16)
    ensures
        error.spec_context(what) is Violation <==> error is Violation,
        error.spec_verdict() is Fail <==> error is Violation,
        error.spec_verdict() is Error <==> error is Infra,
        ctx::spec_at_version(error.spec_verdict(), version) is Fail <==> error is Violation,
        ctx::spec_at_version(error.spec_verdict(), version) is Error <==> error is Infra,
{
}

/// Whether what a flow was halted by counts against the subject.
pub open spec fn is_held_against<T>(flow: FlowView<T>) -> bool {
    ||| flow matches Err(HaltView::Stop(VerdictView::Fail(_), _))
    ||| flow matches Err(HaltView::Broke(ErrorView::Violation(_), _))
}

/// Nothing but an answer that broke the protocol is ever held against the
/// subject: not a connection that was refused, a request that could not be
/// encoded, or an event out of turn.
pub proof fn law_only_broken_answers_are_held_against_it(
    tape: Seq<Event>,
    at: int,
    addr: Seq<char>,
    label: Label<Seq<char>>,
    call: ActionOf<Seq<char>, Seq<u8>>,
)
    ensures
        !is_held_against(tape::spec_connect(tape, at, addr)),
        !is_held_against(tape::spec_pause(tape, at)),
        !is_held_against(tape::spec_stamp(tape, at)),
        !is_held_against(tape::spec_encode(tape, at, label, call)),
        !is_held_against(tape::spec_control(tape, at, call)),
        is_held_against(tape::spec_call(tape, at, label, call)) <==> 0 <= at < tape.len() && (
        tape[at] matches Event::Failed(e) && e@ is Violation),
{
}

/// Discovery: the versions that an answer lists, whatever error it has; none
/// where the answer broke the protocol; and an error where there was no answer
/// to be had.
pub proof fn law_discovery_takes_what_is_listed(
    tape: Seq<Event>,
    conn: usize,
    addr: Seq<char>,
    newest: i16,
)
    requires
        tape.len() == 2,
        tape[0] == Event::Connected(conn),
    ensures
        verdicts::answer_at(tape, 1) matches Some(Response::ApiVersions(answer))
            ==> server_basic::spec_discover(tape, addr, newest) == Ok::<
            Result<Seq<wire::ApiVersion>, Seq<char>>,
            ActionOf<Seq<char>, Seq<u8>>,
        >(Ok(answer.api_keys@)),
        tape[1] matches Event::Failed(e) ==> if e@ is Violation {
            server_basic::spec_discover(tape, addr, newest) matches Ok(Ok(keys)) && keys.len() == 0
        } else {
            server_basic::spec_discover(tape, addr, newest) matches Ok(Err(_))
        },
        server_basic::spec_discover(seq![], addr, newest) == Err::<
            Result<Seq<wire::ApiVersion>, Seq<char>>,
            ActionOf<Seq<char>, Seq<u8>>,
        >(ActionOf::Connect { addr }),
{
}

/// The address of a partition's leader: where the topic's first row, the first
/// row of its partition 0 and the first row of the broker that leads it are at
/// known places, it is the broker's host and port exactly if neither row has an
/// error and the broker can be reached.
pub proof fn law_leaders_are_located(
    answer: wire::MetadataAnswer,
    topic: Seq<char>,
    t: int,
    p: int,
    b: int,
)
    requires
        0 <= t < answer.topics@.len(),
        answer.topics@[t].name matches Some(name) && name@ == topic,
        forall|k: int|
            0 <= k < t ==> !((#[trigger] answer.topics@[k]).name matches Some(name) && name@
                == topic),
        0 <= p < answer.topics@[t].partitions@.len(),
        answer.topics@[t].partitions@[p].index == 0,
        forall|k: int|
            0 <= k < p ==> (#[trigger] answer.topics@[t].partitions@[k]).index != 0,
        0 <= b < answer.brokers@.len(),
        answer.brokers@[b].node_id == answer.topics@[t].partitions@[p].leader_id,
        forall|k: int|
            0 <= k < b ==> (#[trigger] answer.brokers@[k]).node_id
                != answer.topics@[t].partitions@[p].leader_id,
    ensures
        find::spec_leader_address(answer, topic) == (if answer.topics@[t].error.code == 0
            && answer.topics@[t].partitions@[p].error.code == 0 && answer.brokers@[b].host@.len()
            > 0 && 1 <= answer.brokers@[b].port <= 65535 {
            Some(
                answer.brokers@[b].host@ + ":"@ + text::dec(answer.brokers@[b].port as int),
            )
        } else {
            None
        }),
{
    let row = answer.topics@[t].partitions@[p];
    verdicts::lemma_first_is(answer.topics@, find::is_named(topic), t);
    verdicts::lemma_first_is(answer.topics@[t].partitions@, find::is_partition(0), p);
    verdicts::lemma_first_is(answer.brokers@, find::has_node(row.leader_id), b);
}

/// The address of the controller, in the same way.
pub proof fn law_controllers_are_located(answer: wire::MetadataAnswer, b: int)
    requires
        0 <= b < answer.brokers@.len(),
        answer.brokers@[b].node_id == answer.controller_id,
        forall|k: int|
            0 <= k < b ==> (#[trigger] answer.brokers@[k]).node_id != answer.controller_id,
    ensures
        find::spec_controller_address(answer) == (if answer.brokers@[b].host@.len() > 0 && 1
            <= answer.brokers@[b].port <= 65535 {
            Some(
                answer.brokers@[b].host@ + ":"@ + text::dec(answer.brokers@[b].port as int),
            )
        } else {
            None
        }),
{
    verdicts::lemma_first_is(answer.brokers@, find::has_node(answer.controller_id), b);
}

} // verus!

//! Checks on SASL negotiation and the SCRAM exchange.

use vstd::prelude::*;
use vstd::string::*;

use crate::checks::asks;
use crate::checks::ctx::ServerCtx;
use crate::checks::flows;
use crate::checks::tape;
use crate::checks::tape::{
    error, fail, skip, ActionOf, Event, Flow, FlowView, Halt, HaltView, Label, ScramProof,
};
use crate::text;
use crate::text::{begins_with, line, lossy_text, read_u32, split_commas};
use crate::wire;
use crate::wire::{
    ErrorCode, RequestOf, SaslHandshakeAnswer, SASL_AUTHENTICATE, SASL_HANDSHAKE,
};
use crate::{Verdict, VerdictView};

verus! {

/// The least cost of the key derivation for SCRAM-SHA-256.
pub const SCRAM_MIN_ITERATIONS: u32 = 4096;

/// Whether a part of a SCRAM message is the attribute `key`.
pub open spec fn is_attr(part: Seq<char>, key: char) -> bool {
    part.len() >= 2 && part[0] == key && part[1] == '='
}

/// The value of the first attribute `key` among some parts.
pub open spec fn attr_in(parts: Seq<Seq<char>>, key: char) -> Option<Seq<char>>
    decreases parts.len(),
{
    if parts.len() == 0 {
        None
    } else if is_attr(parts[0], key) {
        Some(parts[0].skip(2))
    } else {
        attr_in(parts.skip(1), key)
    }
}

/// One `k=v` attribute of a SCRAM message.
pub open spec fn spec_scram_attr(message: Seq<char>, key: char) -> Option<Seq<char>> {
    attr_in(text::comma_parts(message), key)
}

pub fn scram_attr(message: &str, key: char) -> (r: Option<String>)
    ensures
        wire::opt_view(r) == spec_scram_attr(message@, key),
{
    let parts = split_commas(message);
    let ghost all = text::views(parts@);
    let mut i: usize = 0;
    assert(all.skip(0) =~= all);
    while i < parts.len()
        invariant
            i <= parts@.len(),
            all == text::views(parts@),
            all == text::comma_parts(message@),
            attr_in(all, key) == attr_in(all.skip(i as int), key),
        decreases parts@.len() - i,
    {
        let part = parts[i].as_str();
        assert(all.skip(i as int)[0] == part@);
        assert(all.skip(i as int).skip(1) =~= all.skip(i + 1));
        let n: usize = part.unicode_len();
        if n >= 2 && part.get_char(0) == key && part.get_char(1) == '=' {
            assert(part@.subrange(2, n as int) =~= part@.skip(2));
            return Some(String::from_str(part.substring_char(2, n)));
        }
        i = i + 1;
    }
    None
}

/// Where SASL is spoken, if the operator said.
pub open spec fn spec_sasl_place(ctx: ServerCtx, reason: Seq<char>) -> FlowView<Seq<char>> {
    match ctx.sasl_addr {
        Some(addr) => Ok((addr@, 0)),
        None => Err(tape::spec_skip(reason, 0)),
    }
}

fn sasl_place(ctx: &ServerCtx, reason: &str) -> (r: Flow<String>)
    ensures
        tape::ran(r) == spec_sasl_place(*ctx, reason@),
{
    match &ctx.sasl_addr {
        Some(addr) => Ok((addr.clone(), 0)),
        None => Err(skip(String::from_str(reason), 0)),
    }
}

pub open spec fn spec_handshake_version(ctx: ServerCtx) -> Result<i16, HaltView> {
    ctx.spec_version(
        0,
        "SaslHandshake"@,
        SASL_HANDSHAKE,
        ctx.schema.sasl_handshake.min,
        ctx.schema.sasl_handshake.max,
    )
}

fn handshake_version(ctx: &ServerCtx) -> (r: Result<i16, Halt>)
    ensures
        tape::held(r) == spec_handshake_version(*ctx),
{
    ctx.version(
        0,
        "SaslHandshake",
        SASL_HANDSHAKE,
        ctx.schema.sasl_handshake.min,
        ctx.schema.sasl_handshake.max,
    )
}

pub open spec fn spec_auth_version(ctx: ServerCtx) -> Result<i16, HaltView> {
    ctx.spec_version(
        0,
        "SaslAuthenticate"@,
        SASL_AUTHENTICATE,
        ctx.schema.sasl_authenticate.min,
        ctx.schema.sasl_authenticate.max,
    )
}

fn auth_version(ctx: &ServerCtx) -> (r: Result<i16, Halt>)
    ensures
        tape::held(r) == spec_auth_version(*ctx),
{
    ctx.version(
        0,
        "SaslAuthenticate",
        SASL_AUTHENTICATE,
        ctx.schema.sasl_authenticate.min,
        ctx.schema.sasl_authenticate.max,
    )
}

/// A text's bytes.
fn bytes_of(s: &str) -> (r: Vec<u8>)
    ensures
        r@ == vstd::utf8::encode_utf8(s@),
{
    s.as_bytes_vec()
}

pub open spec fn spec_scram_handshake(
    tape: Seq<Event>,
    at: int,
    conn: usize,
    version: i16,
    addr: Seq<char>,
    correlation: i32,
) -> FlowView<()> {
    match asks::spec_ask_sasl_handshake(
        tape,
        at,
        Label::Final("SaslHandshake"@),
        ActionOf::Call {
            conn,
            version,
            correlation,
            request: RequestOf::SaslHandshake { mechanism: "SCRAM-SHA-256"@ },
        },
    ) {
        Err(halt) => Err(halt),
        Ok((answer, at)) => if !answer.error.ok() {
            Err(
                tape::spec_skip(
                    addr + " does not offer SCRAM-SHA-256 ("@ + answer.error.shown@ + ")"@,
                    at,
                ),
            )
        } else {
            Ok(((), at))
        },
    }
}

/// Negotiates SCRAM on a connection, or says why it cannot be.
fn scram_handshake(
    tape: &Vec<Event>,
    at: usize,
    conn: usize,
    version: i16,
    addr: &str,
    correlation: i32,
) -> (r: Flow<()>)
    ensures
        tape::ran(r) == spec_scram_handshake(tape@, at as int, conn, version, addr@, correlation),
{
    let (answer, at) = asks::ask_sasl_handshake(
        tape,
        at,
        Label::Final("SaslHandshake"),
        ActionOf::Call {
            conn,
            version,
            correlation,
            request: RequestOf::SaslHandshake { mechanism: String::from_str("SCRAM-SHA-256") },
        },
    )?;
    if !answer.error.is_ok() {
        return Err(
            skip(
                line(addr).lit(" does not offer SCRAM-SHA-256 (").lit(answer.error.shown.as_str())
                    .lit(")").done(),
                at,
            ),
        );
    }
    Ok(((), at))
}

pub open spec fn spec_scram_token(
    tape: Seq<Event>,
    at: int,
    conn: usize,
    version: i16,
    token: Seq<u8>,
    correlation: i32,
) -> FlowView<Seq<char>> {
    match asks::spec_ask_sasl_authenticate(
        tape,
        at,
        Label::Final("SaslAuthenticate"@),
        ActionOf::Call {
            conn,
            version,
            correlation,
            request: RequestOf::SaslAuthenticate { token },
        },
    ) {
        Err(halt) => Err(halt),
        Ok((answer, at)) => if !answer.error.ok() {
            Err(
                tape::spec_fail(
                    "SCRAM exchange answered "@ + answer.error.shown@
                        + flows::spec_note(answer.error_message),
                    at,
                ),
            )
        } else {
            Ok((text::utf8_lossy(answer.auth_bytes@), at))
        },
    }
}

/// Sends one SASL token and gives the server's, as text.
fn scram_token(
    tape: &Vec<Event>,
    at: usize,
    conn: usize,
    version: i16,
    token: Vec<u8>,
    correlation: i32,
) -> (r: Flow<String>)
    ensures
        tape::ran(r) == spec_scram_token(tape@, at as int, conn, version, token@, correlation),
{
    let (answer, at) = asks::ask_sasl_authenticate(
        tape,
        at,
        Label::Final("SaslAuthenticate"),
        ActionOf::Call {
            conn,
            version,
            correlation,
            request: RequestOf::SaslAuthenticate { token },
        },
    )?;
    if !answer.error.is_ok() {
        return Err(
            fail(
                line("SCRAM exchange answered ").lit(answer.error.shown.as_str())
                    .lit(flows::note(&answer.error_message).as_str()).done(),
                at,
            ),
        );
    }
    Ok((lossy_text(answer.auth_bytes.as_slice()), at))
}

/// A nonce this exchange has never used.
pub open spec fn spec_scram_nonce(pid: u32, base: i32) -> Seq<char> {
    "odradekNonce"@ + text::dec(pid as int) + text::dec(base as int)
}

fn scram_nonce(pid: u32, base: i32) -> (r: String)
    ensures
        r@ == spec_scram_nonce(pid, base),
{
    line("odradekNonce").num(pid as i64).num(base as i64).done()
}

pub open spec fn spec_scram_begin(
    ctx: ServerCtx,
    tape: Seq<Event>,
    base: i32,
    next: i32,
) -> FlowView<(Seq<char>, Seq<char>)> {
    match spec_sasl_place(ctx, "no SASL listener given (--sasl-server)"@) {
        Err(halt) => Err(halt),
        Ok((addr, at)) => match spec_handshake_version(ctx) {
            Err(halt) => Err(halt),
            Ok(handshake) => match spec_auth_version(ctx) {
                Err(halt) => Err(halt),
                Ok(auth) => match tape::spec_connect(tape, at, addr) {
                    Err(halt) => Err(halt),
                    Ok((conn, at)) => match spec_scram_handshake(
                        tape,
                        at,
                        conn,
                        handshake,
                        addr,
                        base,
                    ) {
                        Err(halt) => Err(halt),
                        Ok((_, at)) => {
                            let nonce = spec_scram_nonce(ctx.pid, base);
                            let first = "n,,n=conformance,r="@ + nonce;
                            match spec_scram_token(
                                tape,
                                at,
                                conn,
                                auth,
                                vstd::utf8::encode_utf8(first),
                                next,
                            ) {
                                Err(halt) => Err(halt),
                                Ok((answer, at)) => Ok(((nonce, answer), at)),
                            }
                        },
                    },
                },
            },
        },
    }
}

/// Begins a SCRAM exchange: handshake, then the client's first message. Gives
/// the client's nonce and the server's first message.
fn scram_begin(
    ctx: &ServerCtx,
    tape: &Vec<Event>,
    base: i32,
    next: i32,
) -> (r: Flow<(String, String)>)
    ensures
        tape::ran(r) == spec_scram_begin(*ctx, tape@, base, next),
{
    let (addr, at) = sasl_place(ctx, "no SASL listener given (--sasl-server)")?;
    let handshake: i16 = handshake_version(ctx)?;
    let auth: i16 = auth_version(ctx)?;
    let (conn, at) = tape::connect(tape, at, addr.as_str())?;
    let (_, at) = scram_handshake(tape, at, conn, handshake, addr.as_str(), base)?;
    let nonce = scram_nonce(ctx.pid, base);
    let first = line("n,,n=conformance,r=").lit(nonce.as_str()).done();
    let (answer, at) = scram_token(tape, at, conn, auth, bytes_of(first.as_str()), next)?;
    Ok(((nonce, answer), at))
}

/// The nonce of the server's first message against the client's.
pub open spec fn spec_judge_nonce(nonce: Seq<char>, server_first: Seq<char>) -> VerdictView {
    match spec_scram_attr(server_first, 'r') {
        None => VerdictView::Fail(
            "server-first carries no nonce: "@ + text::quoted(server_first),
        ),
        Some(server_nonce) => if text::stands_at(server_nonce, nonce, 0) {
            VerdictView::Pass
        } else {
            VerdictView::Fail(
                "client sent nonce "@ + text::quoted(nonce) + "; server answered "@
                    + text::quoted(server_nonce)
                    + ", which does not extend it, so the client cannot tell this exchange from a replay"@,
            )
        },
    }
}

pub open spec fn spec_scram_nonce_extends_client(
    ctx: ServerCtx,
    tape: Seq<Event>,
) -> FlowView<VerdictView> {
    match spec_scram_begin(ctx, tape, 210, 211) {
        Err(halt) => Err(halt),
        Ok(((nonce, server_first), at)) => tape::spec_rule(
            spec_judge_nonce(nonce, server_first),
            at,
        ),
    }
}

/// Answers with a nonce that extends the client's: one that replaces it could
/// be a recording of an earlier exchange.
pub fn scram_nonce_extends_client(ctx: &ServerCtx, tape: &Vec<Event>) -> (r: Flow<Verdict>)
    ensures
        tape::ran(r) == spec_scram_nonce_extends_client(*ctx, tape@),
{
    let ((nonce, server_first), at) = scram_begin(ctx, tape, 210, 211)?;
    let server_nonce = match scram_attr(server_first.as_str(), 'r') {
        None => {
                return Err(
                    fail(
                        line("server-first carries no nonce: ").quote(server_first.as_str()).done(),
                        at,
                    ),
                );
        },
        Some(found) => found,
    };
    if begins_with(server_nonce.as_str(), nonce.as_str()) {
        return Ok((Verdict::Pass, at));
    }
    Err(
        fail(
            line("client sent nonce ").quote(nonce.as_str()).lit("; server answered ")
                .quote(server_nonce.as_str())
                .lit(", which does not extend it, so the client cannot tell this exchange from a replay")
                .done(),
            at,
        ),
    )
}

/// What the server's first message says of the cost of the key derivation.
pub open spec fn spec_judge_cost(server_first: Seq<char>) -> VerdictView {
    let salt = spec_scram_attr(server_first, 's');
    if salt is None || salt->Some_0.len() == 0 {
        VerdictView::Fail("server-first states no salt: "@ + text::quoted(server_first))
    } else {
        match spec_scram_attr(server_first, 'i') {
            None => VerdictView::Fail(
                "server-first states no iteration count: "@ + text::quoted(server_first),
            ),
            Some(stated) => match text::u32_value(stated) {
                None => VerdictView::Fail(
                    "server-first states no iteration count: "@ + text::quoted(server_first),
                ),
                Some(iterations) => if iterations >= SCRAM_MIN_ITERATIONS {
                    VerdictView::Pass
                } else {
                    VerdictView::Fail(
                        "server asks for "@ + text::dec(iterations as int)
                            + " iterations; RFC 7677 makes "@ + text::dec(
                            SCRAM_MIN_ITERATIONS as int,
                        )
                            + " the floor for SCRAM-SHA-256, and a client cannot refuse a low one without failing to connect"@,
                    )
                },
            },
        }
    }
}

fn no_iterations(server_first: &String) -> (r: Verdict)
    ensures
        r@ == VerdictView::Fail(
            "server-first states no iteration count: "@ + text::quoted(server_first@),
        ),
{
    Verdict::Fail {
        details: line("server-first states no iteration count: ").quote(
            server_first.as_str(),
        ).done(),
    }
}

pub fn judge_cost(server_first: &String) -> (r: Verdict)
    ensures
        r@ == spec_judge_cost(server_first@),
{
    let salted = match scram_attr(server_first.as_str(), 's') {
        Some(salt) => !salt.as_str().is_empty(),
        None => false,
    };
    if !salted {
        return Verdict::Fail {
            details: line("server-first states no salt: ").quote(server_first.as_str()).done(),
        };
    }
    let stated = match scram_attr(server_first.as_str(), 'i') {
        Some(stated) => stated,
        None => return no_iterations(server_first),
    };
    match read_u32(stated.as_str()) {
        None => no_iterations(server_first),
        Some(iterations) => if iterations >= SCRAM_MIN_ITERATIONS {
            Verdict::Pass
        } else {
            Verdict::Fail {
                details: line("server asks for ").num(iterations as i64).lit(
                    " iterations; RFC 7677 makes ",
                ).num(SCRAM_MIN_ITERATIONS as i64).lit(
                    " the floor for SCRAM-SHA-256, and a client cannot refuse a low one without failing to connect",
                ).done(),
            }
        },
    }
}

pub open spec fn spec_scram_iteration_floor(
    ctx: ServerCtx,
    tape: Seq<Event>,
) -> FlowView<VerdictView> {
    match spec_scram_begin(ctx, tape, 220, 221) {
        Err(halt) => Err(halt),
        Ok(((_nonce, server_first), at)) => Ok((spec_judge_cost(server_first), at)),
    }
}

/// States a salt and a key derivation cost at or above the floor: a client
/// cannot refuse a low one without failing to connect.
pub fn scram_iteration_floor(ctx: &ServerCtx, tape: &Vec<Event>) -> (r: Flow<Verdict>)
    ensures
        tape::ran(r) == spec_scram_iteration_floor(*ctx, tape@),
{
    let ((_nonce, server_first), at) = scram_begin(ctx, tape, 220, 221)?;
    Ok((judge_cost(&server_first), at))
}

/// What is made of the client's opinion of the server's signature.
pub open spec fn spec_judge_proof(proved: ScramProof, server_final: Seq<char>) -> VerdictView {
    match proved {
        ScramProof::Good => VerdictView::Pass,
        ScramProof::Unsigned => VerdictView::Fail(
            "server-final carries no signature ("@ + text::quoted(server_final)
                + "), so a client has authenticated itself to something it cannot identify"@,
        ),
        ScramProof::Bad(e) => VerdictView::Fail("server signature does not verify: "@ + e@),
    }
}

pub fn judge_proof(proved: &ScramProof, server_final: &String) -> (r: Verdict)
    ensures
        r@ == spec_judge_proof(*proved, server_final@),
{
    match proved {
        ScramProof::Good => Verdict::Pass,
        ScramProof::Unsigned => Verdict::Fail {
            details: line("server-final carries no signature (").quote(server_final.as_str()).lit(
                "), so a client has authenticated itself to something it cannot identify",
            ).done(),
        },
        ScramProof::Bad(e) => Verdict::Fail {
            details: line("server signature does not verify: ").lit(e.as_str()).done(),
        },
    }
}

pub open spec fn spec_scram_exchange(
    tape: Seq<Event>,
    at: int,
    conn: usize,
    version: i16,
    client_first: Seq<char>,
) -> FlowView<VerdictView> {
    match spec_scram_token(
        tape,
        at,
        conn,
        version,
        vstd::utf8::encode_utf8(client_first),
        231,
    ) {
        Err(halt) => Err(halt),
        Ok((server_first, at)) => match tape::spec_scram(
            tape,
            at,
            ActionOf::ScramFinal { server_first: server_first },
        ) {
            Err(halt) => Err(halt),
            Ok((said, at)) => match said {
                Err(e) => Err(tape::spec_fail("server-first is not usable: "@ + e@, at)),
                Ok(client_final) => match spec_scram_token(
                        tape,
                        at,
                        conn,
                        version,
                        vstd::utf8::encode_utf8(client_final@),
                        232,
                    ) {
                        Err(halt) => Err(halt),
                        Ok((server_final, at)) => match tape::spec_proof_of(tape, at, server_final) {
                            Err(halt) => Err(halt),
                            Ok((proved, at)) => Ok((spec_judge_proof(proved, server_final), at)),
                        },
                    },
            },
        },
    }
}

/// The exchange after the handshake, driven by the SCRAM client.
fn scram_exchange(
    tape: &Vec<Event>,
    at: usize,
    conn: usize,
    version: i16,
    client_first: &str,
) -> (r: Flow<Verdict>)
    ensures
        tape::ran(r) == spec_scram_exchange(tape@, at as int, conn, version, client_first@),
{
    let (server_first, at) = scram_token(tape, at, conn, version, bytes_of(client_first), 231)?;
    let (said, at) = tape::scram(tape, at, ActionOf::ScramFinal { server_first: server_first.clone() })?;
    match said {
        Err(e) => {
            Err(fail(line("server-first is not usable: ").lit(e.as_str()).done(), at))
        },
        Ok(client_final) => {
            let (server_final, at) = scram_token(tape, at, conn, version, bytes_of(client_final.as_str()), 232)?;
            let (proved, at) = tape::proof_of(tape, at, &server_final)?;
            Ok((judge_proof(proved, &server_final), at))
        },
    }
}

pub open spec fn spec_scram_server_proves_itself(
    ctx: ServerCtx,
    tape: Seq<Event>,
) -> FlowView<VerdictView> {
    match spec_auth_version(ctx) {
        Err(halt) => Err(halt),
        Ok(auth) => match spec_sasl_place(
            ctx,
            "no SASL listener given (--sasl-server)"@,
        ) {
            Err(halt) => Err(halt),
            Ok((addr, at)) => match spec_handshake_version(ctx) {
                Err(halt) => Err(halt),
                Ok(handshake) => match tape::spec_scram(tape, at, ActionOf::ScramFirst) {
                    Err(halt) => Err(halt),
                    Ok((said, at)) => match said {
                        Err(e) => Err(tape::spec_error("building a SCRAM client: "@ + e@, at)),
                        Ok(client_first) => match tape::spec_connect(tape, at, addr) {
                                Err(halt) => Err(halt),
                                Ok((conn, at)) => match spec_scram_handshake(
                                    tape,
                                    at,
                                    conn,
                                    handshake,
                                    addr,
                                    230,
                                ) {
                                    Err(halt) => Err(halt),
                                    Ok((_, at)) => {
                                        spec_scram_exchange(tape, at, conn, auth, client_first@)
                                    },
                                },
                            },
                    },
                },
            },
        },
    }
}

/// Signs the exchange too: without that a client has proved itself to
/// whatever answered the socket.
pub fn scram_server_proves_itself(ctx: &ServerCtx, tape: &Vec<Event>) -> (r: Flow<Verdict>)
    ensures
        tape::ran(r) == spec_scram_server_proves_itself(*ctx, tape@),
{
    let auth: i16 = auth_version(ctx)?;
    let (addr, at) = sasl_place(ctx, "no SASL listener given (--sasl-server)")?;
    let handshake: i16 = handshake_version(ctx)?;
    let (said, at) = tape::scram(tape, at, ActionOf::ScramFirst)?;
    match said {
        Err(e) => {
            Err(error(line("building a SCRAM client: ").lit(e.as_str()).done(), at))
        },
        Ok(client_first) => {
            let (conn, at) = tape::connect(tape, at, addr.as_str())?;
            let (_, at) = scram_handshake(tape, at, conn, handshake, addr.as_str(), 230)?;
            scram_exchange(tape, at, conn, auth, client_first.as_str())
        },
    }
}

/// What a token is told where no mechanism was negotiated.
pub open spec fn spec_judge_unasked(code: ErrorCode) -> VerdictView {
    if code.code == wire::ILLEGAL_SASL_STATE {
        VerdictView::Pass
    } else if code.ok() {
        VerdictView::Fail(
            "a SASL token was accepted on a connection that negotiated no mechanism"@,
        )
    } else {
        VerdictView::Fail(
            "an out-of-sequence SASL token answered "@ + code.shown@
                + "; ILLEGAL_SASL_STATE is what tells a client its sequence is wrong rather than its credentials"@,
        )
    }
}

pub open spec fn spec_sasl_authenticate_requires_handshake(
    ctx: ServerCtx,
    tape: Seq<Event>,
) -> FlowView<VerdictView> {
    match spec_auth_version(ctx) {
        Err(halt) => Err(halt),
        Ok(version) => match tape::spec_connect(tape, 0, ctx.addr@) {
            Err(halt) => Err(halt),
            Ok((conn, at)) => match asks::spec_ask_sasl_authenticate(
                tape,
                at,
                Label::Final("SaslAuthenticate"@),
                ActionOf::Call {
                    conn,
                    version,
                    correlation: 200,
                    request: RequestOf::SaslAuthenticate {
                        token: vstd::utf8::encode_utf8("not-a-token"@),
                    },
                },
            ) {
                Err(halt) => Err(halt),
                Ok((answer, at)) => tape::spec_rule(spec_judge_unasked(answer.error), at),
            },
        },
    }
}

/// Refuses a SASL token on a connection that negotiated nothing, and says
/// that the sequence is wrong rather than the credentials.
pub fn sasl_authenticate_requires_handshake(
    ctx: &ServerCtx,
    tape: &Vec<Event>,
) -> (r: Flow<Verdict>)
    ensures
        tape::ran(r) == spec_sasl_authenticate_requires_handshake(*ctx, tape@),
{
    let version: i16 = auth_version(ctx)?;
    let (conn, at) = tape::connect(tape, 0, ctx.addr.as_str())?;
    let (answer, at) = asks::ask_sasl_authenticate(
        tape,
        at,
        Label::Final("SaslAuthenticate"),
        ActionOf::Call {
            conn,
            version,
            correlation: 200,
            request: RequestOf::SaslAuthenticate { token: bytes_of("not-a-token") },
        },
    )?;
    if answer.error.code == wire::ILLEGAL_SASL_STATE {
        return Ok((Verdict::Pass, at));
    }
    if answer.error.is_ok() {
        return Err(
            fail(
                String::from_str(
                    "a SASL token was accepted on a connection that negotiated no mechanism",
                ),
                at,
            ),
        );
    }
    Err(
        fail(
            line("an out-of-sequence SASL token answered ").lit(answer.error.shown.as_str())
                .lit("; ILLEGAL_SASL_STATE is what tells a client its sequence is wrong rather than its credentials")
                .done(),
            at,
        ),
    )
}

/// What a mechanism that nobody has is told.
pub open spec fn spec_judge_refusal(answer: SaslHandshakeAnswer, addr: Seq<char>) -> VerdictView {
    if answer.error.code == wire::ILLEGAL_SASL_STATE {
        VerdictView::Skipped(addr + " has no SASL configured after all"@)
    } else if answer.error.code != wire::UNSUPPORTED_SASL_MECHANISM {
        VerdictView::Fail(
            "an unknown mechanism answered "@ + answer.error.shown@
                + ", expected UNSUPPORTED_SASL_MECHANISM"@,
        )
    } else if answer.mechanisms@.len() == 0 {
        VerdictView::Fail(
            "mechanism refused without naming a supported one, so a client has nothing to fall back to and must guess"@,
        )
    } else {
        VerdictView::Pass
    }
}

pub open spec fn spec_sasl_refusal_names_mechanisms(
    ctx: ServerCtx,
    tape: Seq<Event>,
) -> FlowView<VerdictView> {
    match spec_sasl_place(
        ctx,
        "no SASL listener given (--sasl-server); a listener without SASL answers ILLEGAL_SASL_STATE to every SASL request, so mechanism negotiation cannot be observed there"@,
    ) {
        Err(halt) => Err(halt),
        Ok((addr, at)) => match spec_handshake_version(ctx) {
            Err(halt) => Err(halt),
            Ok(version) => match tape::spec_connect(tape, at, addr) {
                Err(halt) => Err(halt),
                Ok((conn, at)) => match asks::spec_ask_sasl_handshake(
                    tape,
                    at,
                    Label::Final("SaslHandshake"@),
                    ActionOf::Call {
                        conn,
                        version,
                        correlation: 202,
                        request: RequestOf::SaslHandshake {
                            mechanism: "ODRADEK-NOSUCH-MECHANISM"@,
                        },
                    },
                ) {
                    Err(halt) => Err(halt),
                    Ok((answer, at)) => tape::spec_rule(spec_judge_refusal(answer, addr), at),
                },
            },
        },
    }
}

/// Names the mechanisms it supports when it refuses one.
pub fn sasl_refusal_names_mechanisms(ctx: &ServerCtx, tape: &Vec<Event>) -> (r: Flow<Verdict>)
    ensures
        tape::ran(r) == spec_sasl_refusal_names_mechanisms(*ctx, tape@),
{
    let (addr, at) = sasl_place(
        ctx,
        "no SASL listener given (--sasl-server); a listener without SASL answers ILLEGAL_SASL_STATE to every SASL request, so mechanism negotiation cannot be observed there",
    )?;
    let version: i16 = handshake_version(ctx)?;
    let (conn, at) = tape::connect(tape, at, addr.as_str())?;
    let (answer, at) = asks::ask_sasl_handshake(
        tape,
        at,
        Label::Final("SaslHandshake"),
        ActionOf::Call {
            conn,
            version,
            correlation: 202,
            request: RequestOf::SaslHandshake {
                mechanism: String::from_str("ODRADEK-NOSUCH-MECHANISM"),
            },
        },
    )?;
    if answer.error.code == wire::ILLEGAL_SASL_STATE {
        return Err(skip(line(addr.as_str()).lit(" has no SASL configured after all").done(), at));
    }
    if answer.error.code != wire::UNSUPPORTED_SASL_MECHANISM {
        return Err(
            fail(
                line("an unknown mechanism answered ").lit(answer.error.shown.as_str())
                    .lit(", expected UNSUPPORTED_SASL_MECHANISM").done(),
                at,
            ),
        );
    }
    if answer.mechanisms.len() == 0 {
        return Err(
            fail(
                String::from_str(
                    "mechanism refused without naming a supported one, so a client has nothing to fall back to and must guess",
                ),
                at,
            ),
        );
    }
    Ok((Verdict::Pass, at))
}

} // verus!

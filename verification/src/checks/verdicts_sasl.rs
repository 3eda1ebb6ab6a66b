//! When a subject passes the checks on SASL, said of the answers it gave.

use vstd::prelude::*;
use vstd::string::*;

use crate::checks::calibration_sasl;
use crate::checks::ctx::ServerCtx;
use crate::checks::server::ServerCheck;
use crate::checks::server_sasl;
use crate::checks::tape::{Event, HaltView, ScramProof};
use crate::checks::verdicts;
use crate::text;
use crate::wire::{
    ErrorCode, Response, SaslHandshakeAnswer, ILLEGAL_SASL_STATE, UNSUPPORTED_SASL_MECHANISM,
};
use crate::VerdictView;

verus! {

/// A number written in decimal has no commas in it.
proof fn lemma_written_is_plain(n: nat)
    ensures
        calibration_sasl::is_plain(text::dec_nat(n)),
{
    text::law_numbers_read_back(n);
    let said = text::dec_nat(n);
    if said.contains(',') {
        let i = choose|i: int| 0 <= i < said.len() && said[i] == ',';
        assert('0' <= said[i] <= '9');
    }
}

/// What a SCRAM server says first: its nonce, its salt and its count.
pub open spec fn server_first(nonce: Seq<char>, salt: Seq<char>, count: Seq<char>) -> Seq<char> {
    text::joined(seq!["r="@ + nonce, "s="@ + salt, "i="@ + count], ","@)
}

proof fn lemma_said(nonce: Seq<char>, salt: Seq<char>, count: Seq<char>)
    requires
        calibration_sasl::is_plain(nonce),
        calibration_sasl::is_plain(salt),
        calibration_sasl::is_plain(count),
    ensures
        ({
            let said = server_first(nonce, salt, count);
            &&& server_sasl::spec_scram_attr(said, 'r') == Some(nonce)
            &&& server_sasl::spec_scram_attr(said, 's') == Some(salt)
            &&& server_sasl::spec_scram_attr(said, 'i') == Some(count)
        }),
{
    reveal_strlit("r=");
    reveal_strlit("s=");
    reveal_strlit("i=");
    let parts = seq!["r="@ + nonce, "s="@ + salt, "i="@ + count];
    calibration_sasl::lemma_plain_attr("r="@, nonce);
    calibration_sasl::lemma_plain_attr("s="@, salt);
    calibration_sasl::lemma_plain_attr("i="@, count);
    assert(calibration_sasl::is_plain(parts[0]));
    assert(calibration_sasl::is_plain(parts[1]));
    assert(calibration_sasl::is_plain(parts[2]));
    calibration_sasl::lemma_split_undoes_join(parts);
    calibration_sasl::lemma_first_attr(parts, 'r', 0);
    calibration_sasl::lemma_first_attr(parts, 's', 1);
    calibration_sasl::lemma_first_attr(parts, 'i', 2);
    assert(parts[0].skip(2) =~= nonce);
    assert(parts[1].skip(2) =~= salt);
    assert(parts[2].skip(2) =~= count);
}

/// The cost of the key derivation: of a server's first message that states a
/// salt and a count of iterations, the judgement is a pass exactly if the salt
/// is not empty and the count is 4096 or more, whatever the count is.
pub proof fn law_costs_are_judged(nonce: Seq<char>, salt: Seq<char>, n: u32)
    requires
        calibration_sasl::is_plain(nonce),
        calibration_sasl::is_plain(salt),
    ensures
        ({
            let verdict = server_sasl::spec_judge_cost(
                server_first(nonce, salt, text::dec(n as int)),
            );
            if salt.len() > 0 && n >= 4096 {
                verdict == VerdictView::Pass
            } else {
                verdict is Fail
            }
        }),
{
    let count = text::dec_nat(n as nat);
    lemma_written_is_plain(n as nat);
    text::law_written_counts_read_back(n as nat);
    lemma_said(nonce, salt, count);
}

/// A count that is not a number, or none, fails.
pub proof fn law_costs_without_a_count_fail(nonce: Seq<char>, salt: Seq<char>, count: Seq<char>)
    requires
        calibration_sasl::is_plain(nonce),
        calibration_sasl::is_plain(salt),
        calibration_sasl::is_plain(count),
        count.len() == 0 || !('0' <= count.last() <= '9'),
    ensures
        server_sasl::spec_judge_cost(server_first(nonce, salt, count)) is Fail,
{
    lemma_said(nonce, salt, count);
    if count.len() > 1 && count[0] == '+' {
        assert(count.skip(1).last() == count.last());
    }
}

/// A message, however it is made up, that states a salt and a number: a pass is
/// a matter of the number alone, and a higher one never turns a pass around.
pub proof fn law_higher_costs_pass_too(weaker: Seq<char>, stronger: Seq<char>, a: u32, b: u32)
    requires
        server_sasl::spec_scram_attr(weaker, 'i') matches Some(said) && text::u32_value(said)
            == Some(a),
        server_sasl::spec_scram_attr(stronger, 'i') matches Some(said) && text::u32_value(said)
            == Some(b),
        server_sasl::spec_scram_attr(stronger, 's') matches Some(salt) && salt.len() > 0,
        a <= b,
    ensures
        server_sasl::spec_judge_cost(weaker) is Pass ==> server_sasl::spec_judge_cost(
            stronger,
        ) is Pass,
        server_sasl::spec_judge_cost(stronger) is Pass <==> b >= 4096,
{
}

/// The floor on the whole exchange: the check comes to what its server's first
/// message deserves, and to a pass exactly if that states 4096 iterations or
/// more.
pub proof fn law_iteration_floor_is_judged(
    ctx: ServerCtx,
    tape: Seq<Event>,
    mine: Seq<char>,
    nonce: Seq<char>,
    salt: Seq<char>,
    n: u32,
    at: int,
)
    requires
        calibration_sasl::is_plain(nonce),
        calibration_sasl::is_plain(salt),
        salt.len() > 0,
        server_sasl::spec_scram_begin(ctx, tape, 220, 221) == Ok::<
            ((Seq<char>, Seq<char>), int),
            HaltView,
        >(((mine, server_first(nonce, salt, text::dec(n as int))), at)),
    ensures
        verdicts::is_ruled(
            ServerCheck::ScramIterationFloor.spec_flow(ctx, tape),
            n >= 4096,
        ),
{
    law_costs_are_judged(nonce, salt, n);
}

/// The nonce: of a server's first message, the judgement is a pass exactly if
/// its nonce begins with the client's.
pub proof fn law_nonces_are_judged(
    mine: Seq<char>,
    nonce: Seq<char>,
    salt: Seq<char>,
    count: Seq<char>,
)
    requires
        calibration_sasl::is_plain(nonce),
        calibration_sasl::is_plain(salt),
        calibration_sasl::is_plain(count),
    ensures
        ({
            let verdict = server_sasl::spec_judge_nonce(mine, server_first(nonce, salt, count));
            if mine.len() <= nonce.len() && nonce.take(mine.len() as int) == mine {
                verdict == VerdictView::Pass
            } else {
                verdict is Fail
            }
        }),
{
    lemma_said(nonce, salt, count);
    if mine.len() <= nonce.len() {
        assert(nonce.take(mine.len() as int) =~= nonce.subrange(0, mine.len() as int));
    }
}

/// The nonce on the whole exchange.
pub proof fn law_nonce_check_is_judged(
    ctx: ServerCtx,
    tape: Seq<Event>,
    mine: Seq<char>,
    nonce: Seq<char>,
    salt: Seq<char>,
    count: Seq<char>,
    at: int,
)
    requires
        calibration_sasl::is_plain(nonce),
        calibration_sasl::is_plain(salt),
        calibration_sasl::is_plain(count),
        server_sasl::spec_scram_begin(ctx, tape, 210, 211) == Ok::<
            ((Seq<char>, Seq<char>), int),
            HaltView,
        >(((mine, server_first(nonce, salt, count)), at)),
    ensures
        verdicts::is_ruled(
            ServerCheck::ScramNonceExtendsClient.spec_flow(ctx, tape),
            mine.len() <= nonce.len() && nonce.take(mine.len() as int) == mine,
        ),
{
    law_nonces_are_judged(mine, nonce, salt, count);
}

/// What the two checks on the server's first message look at: the last answer,
/// which took the token without an error, read as text; and the nonce that the
/// client sent.
pub proof fn law_exchanges_begin_with_the_last_answer(
    ctx: ServerCtx,
    tape: Seq<Event>,
    base: i32,
    next: i32,
    to: int,
    mine: Seq<char>,
    said: Seq<char>,
)
    requires
        server_sasl::spec_scram_begin(ctx, tape, base, next) == Ok::<
            ((Seq<char>, Seq<char>), int),
            HaltView,
        >(((mine, said), to)),
    ensures
        verdicts::answer_at(tape, to - 1) matches Some(Response::SaslAuthenticate(answer))
            && answer.error.code == 0 && said == text::utf8_lossy(answer.auth_bytes@),
        verdicts::answer_at(tape, to - 2) matches Some(Response::SaslHandshake(answer))
            && answer.error.code == 0,
        mine == "odradekNonce"@ + text::dec(ctx.pid as int) + text::dec(base as int),
{
}

/// The server's signature: a pass exactly if it was found to be good.
pub proof fn law_signatures_are_judged(proved: ScramProof, said: Seq<char>)
    ensures
        server_sasl::spec_judge_proof(proved, said) is Pass <==> proved is Good,
        server_sasl::spec_judge_proof(proved, said) is Fail <==> !(proved is Good),
{
}

/// A pass of the signature's check rests on a signature found to be good, of
/// what the server said last.
#[verifier::rlimit(60)]
#[verifier::spinoff_prover]
pub proof fn law_signatures_pass(ctx: ServerCtx, tape: Seq<Event>, to: int)
    requires
        verdicts::passed(ServerCheck::ScramServerProvesItself, ctx, tape, to),
    ensures
        0 < to <= tape.len(),
        tape[to - 1] == Event::Proved(ScramProof::Good),
        verdicts::answer_at(tape, to - 2) matches Some(Response::SaslAuthenticate(answer))
            && answer.error.code == 0,
        verdicts::answer_at(tape, to - 4) matches Some(Response::SaslAuthenticate(answer))
            && answer.error.code == 0,
{
}

/// A token out of turn passes exactly if it is refused as such.
pub proof fn law_unasked_tokens_are_judged(code: ErrorCode)
    ensures
        server_sasl::spec_judge_unasked(code) is Pass <==> code.code == ILLEGAL_SASL_STATE,
        server_sasl::spec_judge_unasked(code) is Pass || server_sasl::spec_judge_unasked(
            code,
        ) is Fail,
{
}

/// The check on it comes to what the one answer deserves.
pub proof fn law_unasked_token_check_is_judged(
    ctx: ServerCtx,
    tape: Seq<Event>,
    conn: usize,
    code: i16,
)
    requires
        server_sasl::spec_auth_version(ctx) is Ok,
        tape.len() == 2,
        tape[0] == Event::Connected(conn),
        verdicts::answer_at(tape, 1) matches Some(Response::SaslAuthenticate(answer))
            && answer.error.code == code,
    ensures
        verdicts::is_ruled(
            ServerCheck::SaslAuthenticateRequiresHandshake.spec_flow(ctx, tape),
            code == ILLEGAL_SASL_STATE,
        ),
{
}

/// A refused mechanism passes exactly if it is refused as one that is not
/// supported, with the name of at least one that is. A listener without SASL is
/// not judged.
pub proof fn law_refusals_are_judged(answer: SaslHandshakeAnswer, addr: Seq<char>)
    ensures
        ({
            let verdict = server_sasl::spec_judge_refusal(answer, addr);
            &&& verdict is Skipped <==> answer.error.code == ILLEGAL_SASL_STATE
            &&& verdict is Pass <==> answer.error.code == UNSUPPORTED_SASL_MECHANISM
                && answer.mechanisms@.len() > 0
            &&& verdict is Pass || verdict is Skipped || verdict is Fail
        }),
{
}

/// A pass of that check rests on the last answer, which refuses the mechanism and
/// names others.
#[verifier::rlimit(60)]
#[verifier::spinoff_prover]
pub proof fn law_refusals_pass(ctx: ServerCtx, tape: Seq<Event>, to: int)
    requires
        verdicts::passed(ServerCheck::SaslRefusalNamesMechanisms, ctx, tape, to),
    ensures
        verdicts::answer_at(tape, to - 1) matches Some(Response::SaslHandshake(answer))
            && answer.error.code == UNSUPPORTED_SASL_MECHANISM && answer.mechanisms@.len() > 0,
{
}

} // verus!

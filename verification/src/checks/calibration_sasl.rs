//! What the checks make of the reference subject's SASL exchange.

use vstd::prelude::*;
use vstd::string::*;

use crate::checks::calibration_state;
use crate::checks::server_sasl;
use crate::checks::tape::ScramProof;
use crate::subject::sasl;
use crate::subject::sasl::SaslView;
use crate::subject::Fault;
use crate::text;
use crate::wire;
use crate::wire::{ErrorCode, SaslHandshakeAnswer};
use crate::VerdictView;

verus! {

/// A mechanism that nobody has, as `sasl/refusal-names-mechanisms` sees what
/// it is told.
pub proof fn law_refusal_is_calibrated(
    state: SaslView,
    answer: SaslHandshakeAnswer,
    addr: Seq<char>,
    hides: bool,
)
    requires
        ({
            let reply = sasl::spec_handshake(
                state,
                "ODRADEK-NOSUCH-MECHANISM"@,
                calibration_state::only_if(Fault::SaslHandshakeHidesMechanisms, hides),
            ).1;
            &&& answer.error.code == reply.error_code
            &&& text::views(answer.mechanisms@) == reply.mechanisms
        }),
    ensures
        !hides ==> server_sasl::spec_judge_refusal(answer, addr) == VerdictView::Pass,
        hides ==> server_sasl::spec_judge_refusal(answer, addr) is Fail,
{
    let fault = Fault::SaslHandshakeHidesMechanisms;
    calibration_state::lemma_only_if(fault, hides, fault);
    reveal_strlit("ODRADEK-NOSUCH-MECHANISM");
    reveal_strlit("SCRAM-SHA-256");
    reveal_strlit("PLAIN");
    assert("ODRADEK-NOSUCH-MECHANISM"@.len() != "SCRAM-SHA-256"@.len());
    assert("ODRADEK-NOSUCH-MECHANISM"@.len() != "PLAIN"@.len());
    assert(text::views(answer.mechanisms@).len() == answer.mechanisms@.len());
}

/// A token on a connection that negotiated nothing, as
/// `sasl/authenticate-requires-handshake` sees what it is told.
pub proof fn law_unasked_token_is_calibrated(
    scram: Result<Seq<char>, Seq<char>>,
    code: ErrorCode,
    accepts: bool,
)
    requires
        code.code == sasl::spec_authenticate(
            SaslView::Unstarted,
            scram,
            calibration_state::only_if(Fault::SaslAuthenticateWithoutHandshake, accepts),
        ).1.error_code,
    ensures
        !accepts ==> server_sasl::spec_judge_unasked(code) == VerdictView::Pass,
        accepts ==> server_sasl::spec_judge_unasked(code) is Fail,
{
    let fault = Fault::SaslAuthenticateWithoutHandshake;
    calibration_state::lemma_only_if(fault, accepts, fault);
}

/// A text without commas.
pub open spec fn is_plain(s: Seq<char>) -> bool {
    !s.contains(',')
}

proof fn lemma_parts_are_plain(s: Seq<char>)
    ensures
        text::comma_parts(s).len() > 0,
        forall|i: int| 0 <= i < text::comma_parts(s).len() ==> is_plain(
            #[trigger] text::comma_parts(s)[i],
        ),
    decreases s.len(),
{
    if s.len() > 0 {
        let front = text::comma_parts(s.drop_last());
        lemma_parts_are_plain(s.drop_last());
        if s.last() != ',' {
            let last = front.last();
            assert(is_plain(front[front.len() - 1]));
            let longer = last.push(s.last());
            assert(is_plain(longer)) by {
                if longer.contains(',') {
                    let k = choose|k: int| 0 <= k < longer.len() && longer[k] == ',';
                    assert(k < last.len());
                    assert(last[k] == ',');
                }
            }
        }
    }
}

/// A part after a comma stands on its own.
proof fn lemma_parts_of_two(a: Seq<char>, b: Seq<char>)
    requires
        is_plain(b),
    ensures
        text::comma_parts(a + ","@ + b) == text::comma_parts(a).push(b),
    decreases b.len(),
{
    reveal_strlit(",");
    lemma_parts_are_plain(a);
    let whole = a + ","@ + b;
    if b.len() == 0 {
        assert(whole.drop_last() =~= a);
        assert(b =~= Seq::empty());
        assert(whole.last() == ',');
    } else {
        let front = b.drop_last();
        assert(is_plain(front)) by {
            if front.contains(',') {
                let k = choose|k: int| 0 <= k < front.len() && front[k] == ',';
                assert(b[k] == ',');
            }
        }
        lemma_parts_of_two(a, front);
        assert(whole.drop_last() =~= a + ","@ + front);
        assert(whole.last() == b.last());
        assert(b.last() != ',') by {
            assert(b[b.len() - 1] == b.last());
        }
        let parts = text::comma_parts(a).push(front);
        assert(front.push(b.last()) =~= b);
        assert(parts.update(parts.len() - 1, parts.last().push(b.last())) =~= text::comma_parts(
            a,
        ).push(b));
    }
}

proof fn lemma_parts_of_one(s: Seq<char>)
    requires
        is_plain(s),
    ensures
        text::comma_parts(s) == seq![s],
    decreases s.len(),
{
    if s.len() > 0 {
        let front = s.drop_last();
        assert(is_plain(front)) by {
            if front.contains(',') {
                let k = choose|k: int| 0 <= k < front.len() && front[k] == ',';
                assert(s[k] == ',');
            }
        }
        lemma_parts_of_one(front);
        assert(s.last() != ',') by {
            assert(s[s.len() - 1] == s.last());
        }
        assert(front.push(s.last()) =~= s);
        assert(seq![front].update(0, front.push(s.last())) =~= seq![s]);
    } else {
        assert(s =~= Seq::empty());
    }
}

/// Splitting undoes joining, of parts without commas.
pub proof fn lemma_split_undoes_join(parts: Seq<Seq<char>>)
    requires
        parts.len() > 0,
        forall|i: int| 0 <= i < parts.len() ==> is_plain(#[trigger] parts[i]),
    ensures
        text::comma_parts(text::joined(parts, ","@)) == parts,
    decreases parts.len(),
{
    if parts.len() == 1 {
        lemma_parts_of_one(parts[0]);
        assert(seq![parts[0]] =~= parts);
    } else {
        let front = parts.drop_last();
        assert forall|i: int| 0 <= i < front.len() implies is_plain(#[trigger] front[i]) by {
            assert(front[i] == parts[i]);
        }
        lemma_split_undoes_join(front);
        assert(is_plain(parts[parts.len() - 1]));
        lemma_parts_of_two(text::joined(front, ","@), parts.last());
        assert(front.push(parts.last()) =~= parts);
    }
}

/// The first attribute of a list is the first that has its key.
pub proof fn lemma_first_attr(parts: Seq<Seq<char>>, key: char, i: int)
    requires
        0 <= i < parts.len(),
        server_sasl::is_attr(parts[i], key),
        forall|j: int| 0 <= j < i ==> !server_sasl::is_attr(#[trigger] parts[j], key),
    ensures
        server_sasl::attr_in(parts, key) == Some(parts[i].skip(2)),
    decreases i,
{
    if i > 0 {
        assert(!server_sasl::is_attr(parts[0], key));
        let rest = parts.skip(1);
        assert(rest[i - 1] == parts[i]);
        assert forall|j: int| 0 <= j < i - 1 implies !server_sasl::is_attr(
            #[trigger] rest[j],
            key,
        ) by {
            assert(rest[j] == parts[j + 1]);
        }
        lemma_first_attr(rest, key, i - 1);
    }
}

/// The nonce that the subject answers with, as `sasl/scram-nonce-extends-client`
/// sees it. `message` is what the SCRAM server says: its parts after the first
/// hold the salt and the cost, and the first extends the client's nonce.
pub proof fn law_nonce_is_calibrated(
    pid: u32,
    base: i32,
    message: Seq<char>,
    replaces: bool,
)
    requires
        ({
            let first = text::comma_parts(message)[0];
            &&& server_sasl::is_attr(first, 'r')
            &&& text::stands_at(first.skip(2), server_sasl::spec_scram_nonce(pid, base), 0)
        }),
    ensures
        ({
            let said = sasl::spec_server_first(
                message,
                calibration_state::only_if(Fault::ScramNonceReplacesClients, replaces),
            );
            let nonce = server_sasl::spec_scram_nonce(pid, base);
            &&& !replaces ==> server_sasl::spec_judge_nonce(nonce, said) == VerdictView::Pass
            &&& replaces ==> server_sasl::spec_judge_nonce(nonce, said) is Fail
        }),
{
    let fault = Fault::ScramNonceReplacesClients;
    calibration_state::lemma_only_if(fault, replaces, fault);
    let parts = text::comma_parts(message);
    let nonce = server_sasl::spec_scram_nonce(pid, base);
    lemma_parts_are_plain(message);
    lemma_first_attr(parts, 'r', 0);
    if replaces {
        let mangled = parts.map_values(sasl::mangled_part());
        reveal_strlit("r=odradek-server-nonce");
        reveal_strlit("r=");
        reveal_strlit("odradekNonce");
        let swapped = "r=odradek-server-nonce"@;
        assert(is_plain(swapped)) by {
            assert(forall|k: int| 0 <= k < swapped.len() ==> swapped[k] != ',');
        }
        assert forall|i: int| 0 <= i < mangled.len() implies is_plain(#[trigger] mangled[i]) by {
            assert(is_plain(parts[i]));
        }
        lemma_split_undoes_join(mangled);
        let first = parts[0];
        assert(first.subrange(0, 2) =~= "r="@);
        assert(text::stands_at(first, "r="@, 0));
        assert(mangled[0] == swapped);
        assert(server_sasl::is_attr(mangled[0], 'r'));
        lemma_first_attr(mangled, 'r', 0);
        let given = swapped.skip(2);
        if text::stands_at(given, nonce, 0) {
            let lead = "odradekNonce"@;
            assert(nonce[7] == lead[7]);
            assert(given.subrange(0, nonce.len() as int)[7] == given[7]);
        }
    }
}

/// The cost that the subject states, as `sasl/scram-iteration-floor` sees it
/// in the SCRAM server's first message.
pub proof fn law_cost_is_calibrated(nonce: Seq<char>, salt: Seq<char>, weak: bool)
    requires
        is_plain(nonce),
        is_plain(salt),
        salt.len() > 0,
    ensures
        ({
            let iterations = sasl::spec_scram_iterations(
                calibration_state::only_if(Fault::ScramWeakIterations, weak),
            );
            let said = text::joined(
                seq!["r="@ + nonce, "s="@ + salt, "i="@ + text::dec(iterations as int)],
                ","@,
            );
            &&& !weak ==> server_sasl::spec_judge_cost(said) == VerdictView::Pass
            &&& weak ==> server_sasl::spec_judge_cost(said) is Fail
        }),
{
    let fault = Fault::ScramWeakIterations;
    calibration_state::lemma_only_if(fault, weak, fault);
    let iterations = sasl::spec_scram_iterations(calibration_state::only_if(fault, weak));
    reveal_strlit("r=");
    reveal_strlit("s=");
    reveal_strlit("i=");
    let count = text::dec(iterations as int);
    let parts = seq!["r="@ + nonce, "s="@ + salt, "i="@ + count];
    reveal_with_fuel(text::dec_nat, 5);
    reveal_with_fuel(text::digits_value, 5);
    if weak {
        assert(count =~= seq!['1']);
    } else {
        assert(count =~= seq!['4', '0', '9', '6']);
        assert(count.drop_last() =~= seq!['4', '0', '9']);
        assert(count.drop_last().drop_last() =~= seq!['4', '0']);
        assert(count.drop_last().drop_last().drop_last() =~= seq!['4']);
    }
    assert(text::u32_value(count) == Some(iterations));
    assert(is_plain(parts[0])) by {
        lemma_plain_attr("r="@, nonce);
    }
    assert(is_plain(parts[1])) by {
        lemma_plain_attr("s="@, salt);
    }
    assert(is_plain(parts[2])) by {
        lemma_plain_attr("i="@, count);
    }
    lemma_split_undoes_join(parts);
    lemma_first_attr(parts, 's', 1);
    lemma_first_attr(parts, 'i', 2);
    assert(parts[1].skip(2) =~= salt);
    assert(parts[2].skip(2) =~= count);
}

pub proof fn lemma_plain_attr(key: Seq<char>, value: Seq<char>)
    requires
        key.len() == 2,
        key[0] != ',',
        key[1] != ',',
        is_plain(value),
    ensures
        is_plain(key + value),
{
    let whole = key + value;
    if whole.contains(',') {
        let k = choose|k: int| 0 <= k < whole.len() && whole[k] == ',';
        if k >= 2 {
            assert(value[k - 2] == ',');
        }
    }
}

/// The end of the exchange, as `sasl/scram-server-proves-itself` sees it: the
/// subject hands on what the SCRAM server signed, unless the fault leaves it
/// out, and an exchange without a signature fails.
pub proof fn law_signature_is_calibrated(signed: Seq<char>, said: Seq<char>, skips: bool)
    ensures
        ({
            let reply = sasl::spec_authenticate(
                SaslView::ScramPending,
                Ok(signed),
                calibration_state::only_if(Fault::ScramSkipsServerSignature, skips),
            ).1;
            &&& reply.error_code == wire::NONE
            &&& !skips ==> reply.auth_bytes == vstd::utf8::encode_utf8(signed)
            &&& skips ==> reply.auth_bytes == Seq::<u8>::empty()
        }),
        server_sasl::spec_judge_proof(ScramProof::Good, said) == VerdictView::Pass,
        server_sasl::spec_judge_proof(ScramProof::Unsigned, said) is Fail,
{
    let fault = Fault::ScramSkipsServerSignature;
    calibration_state::lemma_only_if(fault, skips, fault);
}

} // verus!

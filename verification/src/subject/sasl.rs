//! The SASL exchange of one connection to the reference subject.

use vstd::prelude::*;
use vstd::string::*;

use crate::subject::replies::{
    SaslAuthenticateReply, SaslAuthenticateReplyView, SaslHandshakeReply, SaslHandshakeReplyView,
};
use crate::subject::{injected, Fault};
use crate::text;
use crate::text::{begins_with, join, lossy_text, same_text, split_commas};
use crate::wire;
use crate::wire::{
    ILLEGAL_SASL_STATE, NONE, SASL_AUTHENTICATION_FAILED, UNSUPPORTED_SASL_MECHANISM,
};

verus! {

/// The fewest iterations that the mechanism allows.
pub const SCRAM_ITERATIONS: u32 = 4096;

/// The one account the subject knows.
pub fn scram_user() -> (r: &'static str)
    ensures
        r@ == "conformance"@,
{
    "conformance"
}

/// That account's password. Published, because the checks that exercise a
/// full exchange need both halves of it.
pub fn scram_password() -> (r: &'static str)
    ensures
        r@ == "conformance"@,
{
    "conformance"
}

/// The account's salt: fixed, so that an exchange can be repeated.
pub fn scram_salt() -> (r: &'static str)
    ensures
        r@ == "odradek-acceptance-salt"@,
{
    "odradek-acceptance-salt"
}

/// The iteration count that the subject states.
pub open spec fn spec_scram_iterations(faults: Seq<Fault>) -> u32 {
    if faults.contains(Fault::ScramWeakIterations) {
        1
    } else {
        SCRAM_ITERATIONS
    }
}

pub fn scram_iterations(faults: &Vec<Fault>) -> (r: u32)
    ensures
        r == spec_scram_iterations(faults@),
{
    if injected(faults, Fault::ScramWeakIterations) {
        1
    } else {
        SCRAM_ITERATIONS
    }
}

/// How far along a connection's exchange is.
#[derive(Debug)]
pub enum SaslState {
    /// Nothing has been negotiated.
    Unstarted,
    /// A handshake named this mechanism; tokens can now be read.
    Negotiated(String),
    /// A SCRAM exchange is under way.
    ScramPending,
    /// Authentication completed.
    Authenticated,
}

#[verifier::ext_equal]
pub enum SaslView {
    Unstarted,
    Negotiated(Seq<char>),
    ScramPending,
    Authenticated,
}

impl View for SaslState {
    type V = SaslView;

    open spec fn view(&self) -> SaslView {
        match *self {
            SaslState::Unstarted => SaslView::Unstarted,
            SaslState::Negotiated(mechanism) => SaslView::Negotiated(mechanism@),
            SaslState::ScramPending => SaslView::ScramPending,
            SaslState::Authenticated => SaslView::Authenticated,
        }
    }
}

/// The mechanisms on offer.
pub open spec fn spec_mechanisms() -> Seq<Seq<char>> {
    seq!["SCRAM-SHA-256"@, "PLAIN"@]
}

/// The mechanisms on offer.
pub fn mechanisms() -> (r: Vec<String>)
    ensures
        text::views(r@) == spec_mechanisms(),
{
    let names: Vec<String> = vec![String::from_str("SCRAM-SHA-256"), String::from_str("PLAIN")];
    assert(text::views(names@) =~= spec_mechanisms());
    names
}

/// Whether a mechanism is on offer.
pub open spec fn is_offered(mechanism: Seq<char>) -> bool {
    mechanism == "SCRAM-SHA-256"@ || mechanism == "PLAIN"@
}

/// What SaslHandshake does and answers. The list goes out either way: a
/// client told only "no" has nothing to try next.
pub open spec fn spec_handshake(sasl: SaslView, mechanism: Seq<char>, faults: Seq<Fault>) -> (
    SaslView,
    SaslHandshakeReplyView,
) {
    (
        if is_offered(mechanism) {
            SaslView::Negotiated(mechanism)
        } else {
            sasl
        },
        SaslHandshakeReplyView {
            error_code: if is_offered(mechanism) {
                NONE
            } else {
                UNSUPPORTED_SASL_MECHANISM
            },
            mechanisms: if faults.contains(Fault::SaslHandshakeHidesMechanisms) {
                Seq::empty()
            } else {
                spec_mechanisms()
            },
        },
    )
}

/// Answers SaslHandshake: agrees a mechanism, or says what is on offer.
pub fn handshake(sasl: &mut SaslState, mechanism: &String, faults: &Vec<Fault>) -> (r:
    SaslHandshakeReply)
    ensures
        (final(sasl)@, r@) == spec_handshake(old(sasl)@, mechanism@, faults@),
{
    let offered = same_text(mechanism.as_str(), "SCRAM-SHA-256") || same_text(
        mechanism.as_str(),
        "PLAIN",
    );
    if offered {
        *sasl = SaslState::Negotiated(mechanism.clone());
    }
    let names: Vec<String> = if injected(faults, Fault::SaslHandshakeHidesMechanisms) {
        Vec::new()
    } else {
        mechanisms()
    };
    let r = SaslHandshakeReply {
        error_code: if offered {
            NONE
        } else {
            UNSUPPORTED_SASL_MECHANISM
        },
        mechanisms: names,
    };
    assert(r@.mechanisms =~= spec_handshake(old(sasl)@, mechanism@, faults@).1.mechanisms);
    r
}

/// A part of the server's first message with its nonce replaced.
pub open spec fn mangled_part() -> spec_fn(Seq<char>) -> Seq<char> {
    |part: Seq<char>|
        if text::stands_at(part, "r="@, 0) {
            "r=odradek-server-nonce"@
        } else {
            part
        }
}

/// The server's first message as it goes out.
pub open spec fn spec_server_first(message: Seq<char>, faults: Seq<Fault>) -> Seq<char> {
    if faults.contains(Fault::ScramNonceReplacesClients) {
        text::joined(text::comma_parts(message).map_values(mangled_part()), ","@)
    } else {
        message
    }
}

/// Makes a conformant first message of the server wrong: the client's part of
/// the nonce is gone, so the answer could be a recording of any exchange.
pub fn mangle_server_first(message: String, faults: &Vec<Fault>) -> (r: String)
    ensures
        r@ == spec_server_first(message@, faults@),
{
    if !injected(faults, Fault::ScramNonceReplacesClients) {
        return message;
    }
    let parts = split_commas(message.as_str());
    let ghost all = text::views(parts@);
    let mut out: Vec<String> = Vec::new();
    let mut i: usize = 0;
    while i < parts.len()
        invariant
            i <= parts@.len(),
            all == text::views(parts@),
            out@.len() == i,
            forall|j: int| 0 <= j < i ==> (#[trigger] out@[j])@ == mangled_part()(all[j]),
        decreases parts@.len() - i,
    {
        assert(all[i as int] == parts@[i as int]@);
        if begins_with(parts[i].as_str(), "r=") {
            out.push(String::from_str("r=odradek-server-nonce"));
        } else {
            out.push(parts[i].clone());
        }
        i = i + 1;
    }
    assert(text::views(out@) =~= all.map_values(mangled_part()));
    join(&out, ",")
}

/// The token of a SaslAuthenticate request as text.
pub fn token_text(auth_bytes: &Vec<u8>) -> (r: String)
    ensures
        r@ == text::utf8_lossy(auth_bytes@),
{
    lossy_text(auth_bytes.as_slice())
}

/// What a token is for.
#[derive(Debug, Clone, Copy, PartialEq, Eq, Structural)]
pub enum TokenUse {
    /// Nothing: no mechanism was negotiated.
    Illegal,
    /// The client's first message of a SCRAM exchange.
    ScramFirst,
    /// The client's final message of a SCRAM exchange.
    ScramFinal,
    /// Whatever it is, it is accepted.
    Accepted,
}

/// What the next token of a connection is for. A token that comes before the
/// handshake cannot be read at all, so it is refused as an error of state and
/// not as bad credentials.
pub open spec fn spec_token_use(sasl: SaslView, faults: Seq<Fault>) -> TokenUse {
    match sasl {
        SaslView::Unstarted => if faults.contains(Fault::SaslAuthenticateWithoutHandshake) {
            TokenUse::Accepted
        } else {
            TokenUse::Illegal
        },
        SaslView::Negotiated(mechanism) => if mechanism == "SCRAM-SHA-256"@ {
            TokenUse::ScramFirst
        } else {
            TokenUse::Accepted
        },
        SaslView::ScramPending => TokenUse::ScramFinal,
        SaslView::Authenticated => TokenUse::Accepted,
    }
}

/// What the next token of a connection is for.
pub fn token_use(sasl: &SaslState, faults: &Vec<Fault>) -> (r: TokenUse)
    ensures
        r == spec_token_use(sasl@, faults@),
{
    match sasl {
        SaslState::Unstarted => {
            if injected(faults, Fault::SaslAuthenticateWithoutHandshake) {
                TokenUse::Accepted
            } else {
                TokenUse::Illegal
            }
        },
        SaslState::Negotiated(mechanism) => {
            if same_text(mechanism.as_str(), "SCRAM-SHA-256") {
                TokenUse::ScramFirst
            } else {
                TokenUse::Accepted
            }
        },
        SaslState::ScramPending => TokenUse::ScramFinal,
        SaslState::Authenticated => TokenUse::Accepted,
    }
}

/// An outcome of the SCRAM server: its message, or why there is none.
pub open spec fn outcome_view(scram: Result<String, String>) -> Result<Seq<char>, Seq<char>> {
    match scram {
        Ok(message) => Ok(message@),
        Err(why) => Err(why@),
    }
}

/// A token that is accepted, with bytes to send back.
pub open spec fn token_accepted(auth_bytes: Seq<u8>) -> SaslAuthenticateReplyView {
    SaslAuthenticateReplyView { error_code: NONE, error_message: None, auth_bytes }
}

/// A token that is refused, with a reason.
pub open spec fn token_refused(error_code: i16, why: Seq<char>) -> SaslAuthenticateReplyView {
    SaslAuthenticateReplyView { error_code, error_message: Some(why), auth_bytes: Seq::empty() }
}

/// What SaslAuthenticate does and answers, given what the SCRAM server made
/// of the token where it is for it.
pub open spec fn spec_authenticate(
    sasl: SaslView,
    scram: Result<Seq<char>, Seq<char>>,
    faults: Seq<Fault>,
) -> (SaslView, SaslAuthenticateReplyView) {
    match spec_token_use(sasl, faults) {
        TokenUse::Illegal => (
            sasl,
            token_refused(ILLEGAL_SASL_STATE, "no mechanism negotiated"@),
        ),
        TokenUse::ScramFirst => match scram {
            Ok(message) => (
                SaslView::ScramPending,
                token_accepted(vstd::utf8::encode_utf8(spec_server_first(message, faults))),
            ),
            Err(why) => (sasl, token_refused(SASL_AUTHENTICATION_FAILED, why)),
        },
        TokenUse::ScramFinal => match scram {
            Ok(message) => (
                SaslView::Authenticated,
                token_accepted(
                    if faults.contains(Fault::ScramSkipsServerSignature) {
                        Seq::empty()
                    } else {
                        vstd::utf8::encode_utf8(message)
                    },
                ),
            ),
            Err(why) => (sasl, token_refused(SASL_AUTHENTICATION_FAILED, why)),
        },
        TokenUse::Accepted => (SaslView::Authenticated, token_accepted(Seq::empty())),
    }
}

fn accept_token(auth_bytes: Vec<u8>) -> (r: SaslAuthenticateReply)
    ensures
        r@ == token_accepted(auth_bytes@),
{
    SaslAuthenticateReply { error_code: NONE, error_message: None, auth_bytes }
}

fn refuse_token(error_code: i16, why: String) -> (r: SaslAuthenticateReply)
    ensures
        r@ == token_refused(error_code, why@),
{
    SaslAuthenticateReply { error_code, error_message: Some(why), auth_bytes: Vec::new() }
}

/// Answers SaslAuthenticate. `scram` is what the SCRAM server made of the
/// token; it is looked at only where [`token_use`] says the token is for it.
pub fn authenticate(
    sasl: &mut SaslState,
    scram: Result<String, String>,
    faults: &Vec<Fault>,
) -> (r: SaslAuthenticateReply)
    ensures
        (final(sasl)@, r@) == spec_authenticate(old(sasl)@, outcome_view(scram), faults@),
{
    match token_use(sasl, faults) {
        TokenUse::Illegal => refuse_token(
            ILLEGAL_SASL_STATE,
            String::from_str("no mechanism negotiated"),
        ),
        TokenUse::ScramFirst => match scram {
            Ok(message) => {
                let first = mangle_server_first(message, faults);
                *sasl = SaslState::ScramPending;
                accept_token(first.as_str().as_bytes_vec())
            },
            Err(why) => refuse_token(SASL_AUTHENTICATION_FAILED, why),
        },
        TokenUse::ScramFinal => match scram {
            Ok(message) => {
                let bytes: Vec<u8> = if injected(faults, Fault::ScramSkipsServerSignature) {
                    Vec::new()
                } else {
                    message.as_str().as_bytes_vec()
                };
                *sasl = SaslState::Authenticated;
                accept_token(bytes)
            },
            Err(why) => refuse_token(SASL_AUTHENTICATION_FAILED, why),
        },
        TokenUse::Accepted => {
            *sasl = SaslState::Authenticated;
            accept_token(Vec::new())
        },
    }
}

} // verus!

//! Runs of the checks on SASL.

use vstd::prelude::*;
use vstd::string::*;

use crate::checks::calibration_sasl;
use crate::checks::calibration_state;
use crate::checks::conformance;
use crate::checks::conformance::{Setting, World};
use crate::checks::ctx::ServerCtx;
use crate::checks::server::ServerCheck;
use crate::checks::server_sasl;
use crate::checks::tape;
use crate::checks::tape::{ActionOf, Event, Label};
use crate::checks::trial;
use crate::subject::Fault;
use crate::subject::state::ClusterView;
use crate::wire::{RequestOf, Response};

verus! {

/// Whether the suite was given the address of a broker to speak SASL to.
pub open spec fn has_sasl(ctx: ServerCtx, state: ClusterView) -> bool {
    ctx.sasl_addr matches Some(addr) && conformance::is_heard(state, addr@)
}

#[verifier::rlimit(30)]
pub proof fn lemma_sasl_authenticate_requires_handshake(
    setting: Setting,
    ctx: ServerCtx,
    tape: Seq<Event>,
    worlds: Seq<World>,
)
    requires
        trial::is_trial(ServerCheck::SaslAuthenticateRequiresHandshake, setting.faults),
        conformance::is_set(setting, ctx, worlds[0].state),
        forall|i: int|
            0 <= i < tape.len() ==> conformance::follows(
                setting,
                tape,
                worlds,
                i,
                server_sasl::spec_sasl_authenticate_requires_handshake(
                    ctx,
                    #[trigger] tape.take(i),
                ),
            ),
    ensures
        trial::judged(
            setting.faults,
            server_sasl::spec_sasl_authenticate_requires_handshake(ctx, tape),
        ),
{
    conformance::lemma_group_ranges(setting.schema);
    let version = setting.schema.sasl_authenticate.max;
    let label = Label::Final("SaslAuthenticate"@);
    let request = RequestOf::SaslAuthenticate { token: vstd::utf8::encode_utf8("not-a-token"@) };
    if tape.len() > 0 {
        assert(tape.take(0).len() == 0);
    }
    conformance::lemma_connect(setting, tape, worlds, 0, ctx.addr@);
    match tape::spec_connect(tape, 0, ctx.addr@) {
        Ok((conn, at)) => {
            if at < tape.len() {
                assert(tape.take(at).len() == at);
            }
            conformance::lemma_call(setting, tape, worlds, at, label, conn, version, 200, request);
            match tape::spec_call(
                tape,
                at,
                label,
                ActionOf::Call { conn, version, correlation: 200, request },
            ) {
                Ok((Response::SaslAuthenticate(answer), _)) => {
                    assert(setting.faults =~= calibration_state::only_if(
                        Fault::SaslAuthenticateWithoutHandshake,
                        setting.faults.len() > 0,
                    ));
                    calibration_sasl::law_unasked_token_is_calibrated(
                        (setting.scram)(vstd::utf8::encode_utf8("not-a-token"@)),
                        answer.error,
                        setting.faults.len() > 0,
                    );
                },
                _ => {},
            }
        },
        Err(_) => {},
    }
}

pub proof fn lemma_sasl_refusal_names_mechanisms(
    setting: Setting,
    ctx: ServerCtx,
    tape: Seq<Event>,
    worlds: Seq<World>,
)
    requires
        trial::is_trial(ServerCheck::SaslRefusalNamesMechanisms, setting.faults),
        conformance::is_set(setting, ctx, worlds[0].state),
        has_sasl(ctx, worlds[0].state),
        forall|i: int|
            0 <= i < tape.len() ==> conformance::follows(
                setting,
                tape,
                worlds,
                i,
                server_sasl::spec_sasl_refusal_names_mechanisms(ctx, #[trigger] tape.take(i)),
            ),
    ensures
        trial::judged(setting.faults, server_sasl::spec_sasl_refusal_names_mechanisms(ctx, tape)),
{
    conformance::lemma_group_ranges(setting.schema);
    let version = setting.schema.sasl_handshake.max;
    let addr = (ctx.sasl_addr->Some_0)@;
    let label = Label::Final("SaslHandshake"@);
    let request = RequestOf::SaslHandshake { mechanism: "ODRADEK-NOSUCH-MECHANISM"@ };
    if tape.len() > 0 {
        assert(tape.take(0).len() == 0);
    }
    conformance::lemma_connect(setting, tape, worlds, 0, addr);
    match tape::spec_connect(tape, 0, addr) {
        Ok((conn, at)) => {
            if at < tape.len() {
                assert(tape.take(at).len() == at);
            }
            conformance::lemma_call(setting, tape, worlds, at, label, conn, version, 202, request);
            match tape::spec_call(
                tape,
                at,
                label,
                ActionOf::Call { conn, version, correlation: 202, request },
            ) {
                Ok((Response::SaslHandshake(answer), _)) => {
                    assert(setting.faults =~= calibration_state::only_if(
                        Fault::SaslHandshakeHidesMechanisms,
                        setting.faults.len() > 0,
                    ));
                    calibration_sasl::law_refusal_is_calibrated(
                        worlds[at].lines[conn as int].sasl,
                        answer,
                        addr,
                        setting.faults.len() > 0,
                    );
                },
                _ => {},
            }
        },
        Err(_) => {},
    }
}

} // verus!

//! What a check that has ended rests on: the verdict, and the place on the tape
//! that it was reached at.

use vstd::prelude::*;

use crate::checks::ctx;
use crate::checks::ctx::ServerCtx;
use crate::checks::find;
use crate::checks::flows;
use crate::checks::flows::{Addressing, LegOf};
use crate::checks::server::ServerCheck;
use crate::checks::tape;
use crate::checks::tape::{ErrorView, Event, FlowView, HaltView, StepView};
use crate::wire;
use crate::wire::{FetchAnswer, FetchedRow, ProducedRow, Response};
use crate::VerdictView;

verus! {

/// The verdict that a flow has come to, and how much of the tape it has read.
/// What the subject broke is a failure, and what kept the suite from looking is
/// an error.
pub open spec fn ended(flow: FlowView<VerdictView>) -> Option<(VerdictView, int)> {
    match flow {
        Ok((verdict, to)) => Some((verdict, to)),
        Err(HaltView::Stop(verdict, to)) => Some((verdict, to)),
        Err(HaltView::Broke(ErrorView::Violation(details), to)) => Some(
            (VerdictView::Fail(details), to),
        ),
        Err(HaltView::Broke(ErrorView::Infra(details), to)) => Some(
            (VerdictView::Error(details), to),
        ),
        Err(HaltView::Ask(_)) => None,
    }
}

/// A check is done exactly where it asks for nothing more, and its verdict is
/// the one that it has come to.
pub proof fn law_done_is_ended(flow: FlowView<VerdictView>)
    ensures
        match ended(flow) {
            Some((verdict, _)) => tape::spec_conclude(flow) == StepView::Done(verdict),
            None => tape::spec_conclude(flow) is Ask,
        },
{
}

/// Whether a check has passed, with so much of the tape read.
pub open spec fn passed(check: ServerCheck, ctx: ServerCtx, tape: Seq<Event>, to: int) -> bool {
    check.spec_flow(ctx, tape) == Ok::<(VerdictView, int), HaltView>((VerdictView::Pass, to))
}

/// Whether a flow has come to a pass, or else to a failure.
pub open spec fn is_ruled(flow: FlowView<VerdictView>, sound: bool) -> bool {
    ended(flow) matches Some((verdict, _)) && if sound {
        verdict == VerdictView::Pass
    } else {
        verdict is Fail
    }
}

/// What an exchange at a place on the tape was answered.
pub open spec fn answer_at(tape: Seq<Event>, i: int) -> Option<Response> {
    if 0 <= i < tape.len() {
        match tape[i] {
            Event::Answer { response, .. } => Some(response),
            _ => None,
        }
    } else {
        None
    }
}

/// How long the answer at a place on the tape took, in nanoseconds.
pub open spec fn took_at(tape: Seq<Event>, i: int) -> Option<u64> {
    if 0 <= i < tape.len() {
        match tape[i] {
            Event::Answer { nanos, .. } => Some(nanos),
            _ => None,
        }
    } else {
        None
    }
}

/// The first partition of the first topic that a write was answered for.
pub open spec fn written_at(tape: Seq<Event>, i: int) -> Option<ProducedRow> {
    match answer_at(tape, i) {
        Some(Response::Produce(rows)) => if rows@.len() > 0 && rows@[0]@.len() > 0 {
            Some(rows@[0]@[0])
        } else {
            None
        },
        _ => None,
    }
}

/// The first partition of the first topic of a fetch's answer.
pub open spec fn fetched_in(answer: FetchAnswer) -> Option<FetchedRow> {
    if answer.topics@.len() > 0 && answer.topics@[0].partitions@.len() > 0 {
        Some(answer.topics@[0].partitions@[0])
    } else {
        None
    }
}

/// The same, of the fetch at a place on the tape.
pub open spec fn fetched_at(tape: Seq<Event>, i: int) -> Option<FetchedRow> {
    match answer_at(tape, i) {
        Some(Response::Fetch(answer)) => fetched_in(answer),
        _ => None,
    }
}

/// The record bytes of a fetched partition.
pub open spec fn bytes_in(row: FetchedRow) -> Seq<u8> {
    match row.records {
        Some(bytes) => bytes@,
        None => Seq::empty(),
    }
}

proof fn lemma_leg_end(
    ctx: ServerCtx,
    tape: Seq<Event>,
    at: int,
    leg: LegOf<Seq<char>, Seq<u8>>,
    conn: usize,
    addr: Seq<char>,
    attempt: int,
    last: Seq<char>,
)
    ensures
        flows::spec_produce_leg(ctx, tape, at, leg, conn, addr, attempt, last) matches Ok(
            (produced, to),
        ) ==> {
            &&& written_at(tape, to - 1) matches Some(row) && row.error.code == 0
                && row.base_offset == produced.base_offset
            &&& produced.sent == leg.sent
            &&& produced.topic_id == leg.topic_id
        },
    decreases ctx.config.spec_settle_attempts() - attempt,
{
    if attempt < ctx.config.spec_settle_attempts() {
        match tape::spec_call(
            tape,
            at,
            tape::Label::Plain,
            tape::ActionOf::Pause,
        ) {
            Ok((Response::Produce(rows), next)) => {
                match tape::spec_pause(tape, next) {
                    Ok((_, next)) => match flows::spec_connect_to_leader(
                        ctx,
                        tape,
                        next,
                        leg.bootstrap,
                        leg.metadata_version,
                        leg.topic,
                        13,
                        0,
                    ) {
                        Ok(((conn, addr), next)) => {
                            let shown = rows@[0]@[0].error.shown@;
                            lemma_leg_end(ctx, tape, next, leg, conn, addr, attempt + 1, shown);
                        },
                        Err(_) => {},
                    },
                    Err(_) => {},
                }
            },
            _ => {},
        }
    }
}

/// What the suite has written before a check comes to its point was taken: the
/// last answer says so, and the offset it gives is the one that is kept.
#[verifier::rlimit(60)]
#[verifier::spinoff_prover]
pub proof fn lemma_written(
    ctx: ServerCtx,
    tape: Seq<Event>,
    at: int,
    tag: Seq<char>,
    addressing: Addressing,
)
    ensures
        flows::spec_produce_flow(ctx, tape, at, tag, addressing) matches Ok((produced, to)) ==> (
        written_at(tape, to - 1) matches Some(row) && row.error.code == 0 && row.base_offset
            == produced.base_offset),
{
    match flows::spec_produce_flow(ctx, tape, at, tag, addressing) {
        Ok(_) => {
            let create = ctx.spec_version(
                at,
                "CreateTopics"@,
                wire::CREATE_TOPICS,
                ctx.schema.create_topics.min,
                ctx.schema.create_topics.max,
            )->Ok_0;
            let produce = ctx.spec_version(
                at,
                "Produce"@,
                wire::PRODUCE,
                (match addressing {
                    Addressing::Name => ctx.schema.produce.min,
                    Addressing::TopicId => flows::PRODUCE_ID_MIN,
                }),
                (match addressing {
                    Addressing::Name => flows::PRODUCE_NAME_MAX,
                    Addressing::TopicId => ctx.schema.produce.max,
                }),
            )->Ok_0;
            let metadata = ctx.spec_version(
                at,
                "Metadata"@,
                wire::METADATA,
                1,
                ctx.schema.metadata.max,
            )->Ok_0;
            let (bootstrap, connected) = tape::spec_connect(tape, at, ctx.addr@)->Ok_0;
            let (topic, named) = ctx::spec_fresh_topic(ctx, tape, connected, tag)->Ok_0;
            lemma_created_end(
                ctx,
                tape,
                named,
                bootstrap,
                topic,
                create,
                produce,
                metadata,
                addressing,
            );
        },
        Err(_) => {},
    }
}

proof fn lemma_created_end(
    ctx: ServerCtx,
    tape: Seq<Event>,
    at: int,
    bootstrap: usize,
    topic: Seq<char>,
    create: i16,
    produce: i16,
    metadata: i16,
    addressing: Addressing,
)
    ensures
        flows::spec_produce_created(
            ctx,
            tape,
            at,
            bootstrap,
            topic,
            create,
            produce,
            metadata,
            addressing,
        ) matches Ok((produced, to)) ==> (written_at(tape, to - 1) matches Some(row)
            && row.error.code == 0 && row.base_offset == produced.base_offset),
{
    match flows::spec_produce_created(
        ctx,
        tape,
        at,
        bootstrap,
        topic,
        create,
        produce,
        metadata,
        addressing,
    ) {
        Ok(_) => {
            let (controller, found) = flows::spec_admin_conn(ctx, tape, at, bootstrap, 9)->Ok_0;
            let rows = answer_at(tape, found)->Some_0->CreateTopics_0;
            let sent = tape[found + 1]->Encoded_0;
            let ((conn, addr), led) = flows::spec_connect_to_leader(
                ctx,
                tape,
                found + 2,
                bootstrap,
                metadata,
                topic,
                12,
                0,
            )->Ok_0;
            let leg = LegOf {
                bootstrap,
                topic,
                topic_id: rows@[0].topic_id,
                sent: sent@,
                produce_version: produce,
                metadata_version: metadata,
                addressing,
            };
            lemma_leg_end(ctx, tape, led, leg, conn, addr, 0, ""@);
        },
        Err(_) => {},
    }
}

/// The first element of a kind, found by its place.
pub proof fn lemma_first_is<T>(s: Seq<T>, p: spec_fn(T) -> bool, j: int)
    requires
        0 <= j < s.len(),
        p(s[j]),
        forall|k: int| 0 <= k < j ==> !p(#[trigger] s[k]),
    ensures
        find::first_where(s, p) == Some(s[j]),
    decreases s.len(),
{
    if j > 0 {
        assert(!p(s[0]));
        let rest = s.skip(1);
        assert(rest[j - 1] == s[j]);
        assert forall|k: int| 0 <= k < j - 1 implies !p(#[trigger] rest[k]) by {
            assert(rest[k] == s[k + 1]);
        }
        lemma_first_is(rest, p, j - 1);
    }
}

/// Where no element is of a kind, there is no first.
pub proof fn lemma_first_is_none<T>(s: Seq<T>, p: spec_fn(T) -> bool)
    requires
        forall|k: int| 0 <= k < s.len() ==> !p(#[trigger] s[k]),
    ensures
        find::first_where(s, p) is None,
    decreases s.len(),
{
    if s.len() > 0 {
        assert(!p(s[0]));
        let rest = s.skip(1);
        assert forall|k: int| 0 <= k < rest.len() implies !p(#[trigger] rest[k]) by {
            assert(rest[k] == s[k + 1]);
        }
        lemma_first_is_none(rest, p);
    }
}

} // verus!

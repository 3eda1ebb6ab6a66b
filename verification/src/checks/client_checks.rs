//! The client-side checks, judged over a recorded session.

use vstd::prelude::*;
use vstd::string::*;

use crate::checks::client;
use crate::checks::client::{
    advertised, routing_topic, FaultEvent, HarnessFault, HarnessSchema, Observation, Session,
    THROTTLE_MS, UNKNOWN_TAG,
};
use crate::checks::server::ServerCheck;
use crate::report;
use crate::report::{CheckOutcome, Report};
use crate::text;
use crate::text::{join, line, same_text, Notes};
use crate::wire::{ApiVersion, API_VERSIONS, SASL_AUTHENTICATE, SASL_HANDSHAKE};
use crate::{CheckId, Verdict, VerdictView};

verus! {

/// A request as the findings name it.
pub open spec fn spec_describe(o: Observation) -> Seq<char> {
    "conn #"@ + text::dec(o.conn_id as int) + " request #"@ + text::dec(o.index as int)
        + " to broker "@ + text::dec(o.node_id as int) + " (api "@ + text::dec(o.api_key as int)
        + " v"@ + text::dec(o.api_version as int) + ")"@
}

pub fn describe(o: &Observation) -> (r: String)
    ensures
        r@ == spec_describe(*o),
{
    line("conn #").count(o.conn_id as u128).lit(" request #").count(o.index as u128).lit(
        " to broker ",
    ).num(o.node_id as i64).lit(" (api ").num(o.api_key as i64).lit(" v").num(
        o.api_version as i64,
    ).lit(")").done()
}

/// What a check notes of each request, in the order of the requests.
pub open spec fn gathered(
    seen: Seq<Observation>,
    notes: spec_fn(Observation) -> Seq<Seq<char>>,
) -> Seq<Seq<char>>
    decreases seen.len(),
{
    if seen.len() == 0 {
        Seq::empty()
    } else {
        gathered(seen.drop_last(), notes) + notes(seen.last())
    }
}

/// Whether a check applies to any of the requests.
pub open spec fn applies(seen: Seq<Observation>, to: spec_fn(Observation) -> bool) -> bool {
    exists|i: int| 0 <= i < seen.len() && to(#[trigger] seen[i])
}

/// A check that applies to nothing is skipped; one that notes nothing
/// passes; and what it notes is its finding.
pub open spec fn spec_judge_notes(
    applicable: bool,
    reason: Seq<char>,
    notes: Seq<Seq<char>>,
) -> VerdictView {
    if !applicable {
        VerdictView::Skipped(reason)
    } else if notes.len() == 0 {
        VerdictView::Pass
    } else {
        VerdictView::Fail(text::joined(notes, "; "@))
    }
}

fn judge_notes(applicable: bool, reason: &str, notes: &Notes) -> (r: Verdict)
    ensures
        r@ == spec_judge_notes(applicable, reason@, notes@),
{
    if !applicable {
        Verdict::Skipped { reason: String::from_str(reason) }
    } else if notes.0.len() == 0 {
        Verdict::Pass
    } else {
        Verdict::Fail { details: join(&notes.0, "; ") }
    }
}

proof fn lemma_gathered_step(
    seen: Seq<Observation>,
    notes: spec_fn(Observation) -> Seq<Seq<char>>,
    i: int,
)
    requires
        0 <= i < seen.len(),
    ensures
        gathered(seen.take(i + 1), notes) == gathered(seen.take(i), notes) + notes(seen[i]),
{
    assert(seen.take(i + 1).drop_last() =~= seen.take(i));
}

/// One note or none.
pub open spec fn one(note: Option<Seq<char>>) -> Seq<Seq<char>> {
    match note {
        Some(n) => seq![n],
        None => Seq::empty(),
    }
}

proof fn lemma_one(rest: Seq<Seq<char>>, note: Seq<char>)
    ensures
        rest + one(Some(note)) == rest.push(note),
        rest + one(None) == rest,
{
    assert(rest + one(Some(note)) =~= rest.push(note));
    assert(rest + one(None) =~= rest);
}

/// Requests with a header that does not decode.
pub open spec fn header_notes() -> spec_fn(Observation) -> Seq<Seq<char>> {
    |o: Observation|
        one(
            match o.header_error {
                Some(e) => Some(spec_describe(o) + ": "@ + e@),
                None => None,
            },
        )
}

pub open spec fn spec_header_well_formed(s: Session) -> VerdictView {
    spec_judge_notes(
        s.observations@.len() > 0,
        "client sent no requests"@,
        gathered(s.observations@, header_notes()),
    )
}

fn header_well_formed(s: &Session) -> (r: Verdict)
    ensures
        r@ == spec_header_well_formed(*s),
{
    let mut notes = Notes::none();
    let mut i: usize = 0;
    while i < s.observations.len()
        invariant
            i <= s.observations@.len(),
            notes@ == gathered(s.observations@.take(i as int), header_notes()),
        decreases s.observations@.len() - i,
    {
        let o = &s.observations[i];
        proof {
            lemma_gathered_step(s.observations@, header_notes(), i as int);
            lemma_one(notes@, spec_describe(*o));
        }
        if let Some(e) = &o.header_error {
            let note = line(describe(o).as_str()).lit(": ").lit(e.as_str()).done();
            proof {
                lemma_one(notes@, note@);
            }
            notes.push(note);
        }
        i = i + 1;
    }
    assert(s.observations@.take(i as int) =~= s.observations@);
    judge_notes(s.observations.len() > 0, "client sent no requests", &notes)
}

/// First requests on a connection that are not ApiVersions.
pub open spec fn start_notes() -> spec_fn(Observation) -> Seq<Seq<char>> {
    |o: Observation|
        one(
            if o.index == 0 && o.api_key != API_VERSIONS {
                Some(
                    spec_describe(o) + ": first request on the connection is not ApiVersions"@,
                )
            } else {
                None
            },
        )
}

pub open spec fn spec_starts_with_api_versions(s: Session) -> VerdictView {
    spec_judge_notes(
        s.observations@.len() > 0,
        "client sent no requests"@,
        gathered(s.observations@, start_notes()),
    )
}

/// Per connection: negotiation is a per-connection handshake.
fn starts_with_api_versions(s: &Session) -> (r: Verdict)
    ensures
        r@ == spec_starts_with_api_versions(*s),
{
    let mut notes = Notes::none();
    let mut i: usize = 0;
    while i < s.observations.len()
        invariant
            i <= s.observations@.len(),
            notes@ == gathered(s.observations@.take(i as int), start_notes()),
        decreases s.observations@.len() - i,
    {
        let o = &s.observations[i];
        proof {
            lemma_gathered_step(s.observations@, start_notes(), i as int);
            lemma_one(notes@, spec_describe(*o));
        }
        if o.index == 0 && o.api_key != API_VERSIONS {
            let note = line(describe(o).as_str()).lit(
                ": first request on the connection is not ApiVersions",
            ).done();
            proof {
                lemma_one(notes@, note@);
            }
            notes.push(note);
        }
        i = i + 1;
    }
    assert(s.observations@.take(i as int) =~= s.observations@);
    judge_notes(s.observations.len() > 0, "client sent no requests", &notes)
}

/// Whether an earlier request on the connection had the correlation id.
pub open spec fn id_used(seen: Seq<Observation>, conn_id: usize, correlation_id: i32) -> bool {
    exists|i: int|
        0 <= i < seen.len() && (#[trigger] seen[i]).conn_id == conn_id && seen[i].header is Some
            && seen[i].header->Some_0.correlation_id == correlation_id
}

/// Requests that reuse a correlation id of their connection, in order.
pub open spec fn reuse_notes(seen: Seq<Observation>) -> Seq<Seq<char>>
    decreases seen.len(),
{
    if seen.len() == 0 {
        Seq::empty()
    } else {
        let earlier = seen.drop_last();
        let o = seen.last();
        match o.header {
            Some(h) => if id_used(earlier, o.conn_id, h.correlation_id) {
                reuse_notes(earlier).push(
                    spec_describe(o) + " reuses correlation id "@ + text::dec(
                        h.correlation_id as int,
                    ),
                )
            } else {
                reuse_notes(earlier)
            },
            None => reuse_notes(earlier),
        }
    }
}

pub open spec fn spec_correlation_ids_unique(s: Session) -> VerdictView {
    spec_judge_notes(
        s.observations@.len() > 0,
        "client sent no requests"@,
        reuse_notes(s.observations@),
    )
}

fn used_before(seen: &Vec<Observation>, upto: usize, conn_id: usize, correlation_id: i32) -> (r:
    bool)
    requires
        upto <= seen@.len(),
    ensures
        r == id_used(seen@.take(upto as int), conn_id, correlation_id),
{
    let ghost earlier = seen@.take(upto as int);
    let mut j: usize = 0;
    while j < upto
        invariant
            j <= upto,
            upto <= seen@.len(),
            earlier == seen@.take(upto as int),
            forall|k: int|
                0 <= k < j ==> !((#[trigger] earlier[k]).conn_id == conn_id && earlier[k].header
                    is Some && earlier[k].header->Some_0.correlation_id == correlation_id),
        decreases upto - j,
    {
        let o = &seen[j];
        assert(earlier[j as int] == *o);
        if o.conn_id == conn_id {
            if let Some(h) = o.header {
                if h.correlation_id == correlation_id {
                    return true;
                }
            }
        }
        j = j + 1;
    }
    false
}

/// Per connection.
fn correlation_ids_unique(s: &Session) -> (r: Verdict)
    ensures
        r@ == spec_correlation_ids_unique(*s),
{
    let mut notes = Notes::none();
    let mut i: usize = 0;
    while i < s.observations.len()
        invariant
            i <= s.observations@.len(),
            notes@ == reuse_notes(s.observations@.take(i as int)),
        decreases s.observations@.len() - i,
    {
        assert(s.observations@.take(i + 1).drop_last() =~= s.observations@.take(i as int));
        let o = &s.observations[i];
        if let Some(h) = o.header {
            if used_before(&s.observations, i, o.conn_id, h.correlation_id) {
                notes.push(
                    line(describe(o).as_str()).lit(" reuses correlation id ").num(
                        h.correlation_id as i64,
                    ).done(),
                );
            }
        }
        i = i + 1;
    }
    assert(s.observations@.take(i as int) =~= s.observations@);
    judge_notes(s.observations.len() > 0, "client sent no requests", &notes)
}

/// The advertised range of an api.
pub open spec fn range_of(rows: Seq<ApiVersion>, api_key: i16) -> Option<(i16, i16)> {
    crate::checks::ctx::spec_advertised(rows, api_key)
}

/// Requests outside what was advertised. ApiVersions itself is exempt: the
/// probing happens before ranges are known.
pub open spec fn version_notes(rows: Seq<ApiVersion>) -> spec_fn(Observation) -> Seq<Seq<char>> {
    |o: Observation|
        one(
            if o.api_key == API_VERSIONS {
                None
            } else {
                match range_of(rows, o.api_key) {
                    None => Some(
                        spec_describe(o) + " uses an api key the harness never advertised"@,
                    ),
                    Some((min, max)) => if o.api_version < min || o.api_version > max {
                        Some(
                            spec_describe(o) + " is outside the advertised "@ + text::dec(
                                min as int,
                            ) + "-"@ + text::dec(max as int),
                        )
                    } else {
                        None
                    },
                }
            },
        )
}

pub open spec fn is_not_probe() -> spec_fn(Observation) -> bool {
    |o: Observation| o.api_key != API_VERSIONS
}

pub open spec fn spec_respects_advertised_versions(s: Session, schema: HarnessSchema)
    -> VerdictView {
    spec_judge_notes(
        applies(s.observations@, is_not_probe()),
        "only ApiVersions requests observed"@,
        gathered(s.observations@, version_notes(client::spec_advertised(schema))),
    )
}

fn respects_advertised_versions(s: &Session, schema: &HarnessSchema) -> (r: Verdict)
    ensures
        r@ == spec_respects_advertised_versions(*s, *schema),
{
    let rows = advertised(schema);
    let ghost f = version_notes(rows@);
    let mut notes = Notes::none();
    let mut applicable = false;
    let mut i: usize = 0;
    while i < s.observations.len()
        invariant
            i <= s.observations@.len(),
            f == version_notes(rows@),
            notes@ == gathered(s.observations@.take(i as int), f),
            applicable == applies(s.observations@.take(i as int), is_not_probe()),
        decreases s.observations@.len() - i,
    {
        let o = &s.observations[i];
        proof {
            lemma_gathered_step(s.observations@, f, i as int);
            lemma_one(notes@, spec_describe(*o));
            lemma_applies_step(s.observations@, is_not_probe(), i as int);
        }
        if o.api_key != API_VERSIONS {
            applicable = true;
            match crate::checks::ctx::advertised_range(&rows, o.api_key) {
                None => {
                    let note = line(describe(o).as_str()).lit(
                        " uses an api key the harness never advertised",
                    ).done();
                    proof {
                        lemma_one(notes@, note@);
                    }
                    notes.push(note);
                },
                Some((min, max)) => {
                    if o.api_version < min || o.api_version > max {
                        let note = line(describe(o).as_str()).lit(
                            " is outside the advertised ",
                        ).num(min as i64).lit("-").num(max as i64).done();
                        proof {
                            lemma_one(notes@, note@);
                        }
                        notes.push(note);
                    }
                },
            }
        }
        i = i + 1;
    }
    assert(s.observations@.take(i as int) =~= s.observations@);
    judge_notes(applicable, "only ApiVersions requests observed", &notes)
}

proof fn lemma_applies_step(seen: Seq<Observation>, to: spec_fn(Observation) -> bool, i: int)
    requires
        0 <= i < seen.len(),
    ensures
        applies(seen.take(i + 1), to) == (applies(seen.take(i), to) || to(seen[i])),
{
    let now = seen.take(i + 1);
    let before = seen.take(i);
    if applies(before, to) {
        let k = choose|k: int| 0 <= k < before.len() && to(#[trigger] before[k]);
        assert(now[k] == before[k]);
    }
    if to(seen[i]) {
        assert(now[i] == seen[i]);
    }
    if applies(now, to) {
        let k = choose|k: int| 0 <= k < now.len() && to(#[trigger] now[k]);
        if k < i {
            assert(before[k] == now[k]);
        }
    }
}

/// Requests whose body does not decode, among those whose body is checked.
pub open spec fn body_notes() -> spec_fn(Observation) -> Seq<Seq<char>> {
    |o: Observation|
        one(
            match o.body_error {
                Some(e) => if o.body_exempt {
                    None
                } else {
                    Some(spec_describe(o) + ": "@ + e@)
                },
                None => None,
            },
        )
}

pub open spec fn has_checked_body() -> spec_fn(Observation) -> bool {
    |o: Observation| !o.body_exempt
}

pub open spec fn spec_body_decodes(s: Session) -> VerdictView {
    spec_judge_notes(
        applies(s.observations@, has_checked_body()),
        "no checkable request bodies observed"@,
        gathered(s.observations@, body_notes()),
    )
}

fn body_decodes(s: &Session) -> (r: Verdict)
    ensures
        r@ == spec_body_decodes(*s),
{
    let mut notes = Notes::none();
    let mut applicable = false;
    let mut i: usize = 0;
    while i < s.observations.len()
        invariant
            i <= s.observations@.len(),
            notes@ == gathered(s.observations@.take(i as int), body_notes()),
            applicable == applies(s.observations@.take(i as int), has_checked_body()),
        decreases s.observations@.len() - i,
    {
        let o = &s.observations[i];
        proof {
            lemma_gathered_step(s.observations@, body_notes(), i as int);
            lemma_one(notes@, spec_describe(*o));
            lemma_applies_step(s.observations@, has_checked_body(), i as int);
        }
        if !o.body_exempt {
            applicable = true;
            if let Some(e) = &o.body_error {
                let note = line(describe(o).as_str()).lit(": ").lit(e.as_str()).done();
                proof {
                    lemma_one(notes@, note@);
                }
                notes.push(note);
            }
        }
        i = i + 1;
    }
    assert(s.observations@.take(i as int) =~= s.observations@);
    judge_notes(applicable, "no checkable request bodies observed", &notes)
}

/// Whether a broker ever led a partition: from the start, or by a move.
pub open spec fn ever_led(events: Seq<FaultEvent>, partition: i32, node_id: i32) -> bool {
    node_id == partition || exists|i: int|
        0 <= i < events.len() && (#[trigger] events[i]).partition == partition && events[i].to_node
            == node_id
}

fn has_ever_led(events: &Vec<FaultEvent>, partition: i32, node_id: i32) -> (r: bool)
    ensures
        r == ever_led(events@, partition, node_id),
{
    if node_id == partition {
        return true;
    }
    let mut i: usize = 0;
    while i < events.len()
        invariant
            i <= events@.len(),
            node_id != partition,
            forall|j: int|
                0 <= j < i ==> !((#[trigger] events@[j]).partition == partition
                    && events@[j].to_node == node_id),
        decreases events@.len() - i,
    {
        if events[i].partition == partition && events[i].to_node == node_id {
            assert(events@[i as int].partition == partition);
            return true;
        }
        i = i + 1;
    }
    false
}

/// The misroutes among some of a request's pairs.
pub open spec fn misroutes(
    o: Observation,
    routes: Seq<client::RouteView>,
    events: Seq<FaultEvent>,
) -> Seq<Seq<char>>
    decreases routes.len(),
{
    if routes.len() == 0 {
        Seq::empty()
    } else {
        let rest = misroutes(o, routes.drop_last(), events);
        let (topic, partition) = routes.last();
        if topic == client::spec_routing_topic() && !ever_led(events, partition, o.node_id) {
            rest.push(
                spec_describe(o) + " addresses "@ + topic + "["@ + text::dec(partition as int)
                    + "], which broker "@ + text::dec(o.node_id as int)
                    + " was never advertised as leading"@,
            )
        } else {
            rest
        }
    }
}

/// Requests that went to a broker which never led the partition.
pub open spec fn route_notes(events: Seq<FaultEvent>) -> spec_fn(Observation) -> Seq<Seq<char>> {
    |o: Observation| misroutes(o, client::route_views(o.routes@), events)
}

pub open spec fn names_routing(routes: Seq<client::RouteView>) -> bool {
    exists|i: int| 0 <= i < routes.len() && (#[trigger] routes[i]).0 == client::spec_routing_topic()
}

pub open spec fn is_routed() -> spec_fn(Observation) -> bool {
    |o: Observation| names_routing(client::route_views(o.routes@))
}

pub open spec fn spec_routes_to_partition_leader(s: Session) -> VerdictView {
    spec_judge_notes(
        applies(s.observations@, is_routed()),
        "no produce/fetch for the routing topic observed"@,
        gathered(s.observations@, route_notes(s.events@)),
    )
}

fn misroutes_of(o: &Observation, events: &Vec<FaultEvent>) -> (r: (Notes, bool))
    ensures
        r.0@ == misroutes(*o, client::route_views(o.routes@), events@),
        r.1 == names_routing(client::route_views(o.routes@)),
{
    let ghost all = client::route_views(o.routes@);
    let mut notes = Notes::none();
    let mut routed = false;
    let mut i: usize = 0;
    assert(all.take(0) =~= Seq::empty());
    while i < o.routes.len()
        invariant
            i <= o.routes@.len(),
            all == client::route_views(o.routes@),
            notes@ == misroutes(*o, all.take(i as int), events@),
            routed == (exists|j: int|
                0 <= j < i && (#[trigger] all[j]).0 == client::spec_routing_topic()),
        decreases o.routes@.len() - i,
    {
        assert(all.take(i + 1).drop_last() =~= all.take(i as int));
        let route = &o.routes[i];
        assert(all[i as int] == (route.topic@, route.partition));
        if same_text(route.topic.as_str(), routing_topic()) {
            routed = true;
            if !has_ever_led(events, route.partition, o.node_id) {
                notes.push(
                    line(describe(o).as_str()).lit(" addresses ").lit(route.topic.as_str()).lit(
                        "[",
                    ).num(route.partition as i64).lit("], which broker ").num(
                        o.node_id as i64,
                    ).lit(" was never advertised as leading").done(),
                );
            }
        }
        i = i + 1;
    }
    assert(all.take(i as int) =~= all);
    (notes, routed)
}

/// Partition `i` starts led by broker `i`; a staged fault may move it. A
/// misroute is an arrival at a broker that was never advertised as leading.
fn routes_to_partition_leader(s: &Session) -> (r: Verdict)
    ensures
        r@ == spec_routes_to_partition_leader(*s),
{
    let ghost f = route_notes(s.events@);
    let mut notes = Notes::none();
    let mut applicable = false;
    let mut i: usize = 0;
    while i < s.observations.len()
        invariant
            i <= s.observations@.len(),
            f == route_notes(s.events@),
            notes@ == gathered(s.observations@.take(i as int), f),
            applicable == applies(s.observations@.take(i as int), is_routed()),
        decreases s.observations@.len() - i,
    {
        proof {
            lemma_gathered_step(s.observations@, f, i as int);
            lemma_applies_step(s.observations@, is_routed(), i as int);
        }
        let (these, routed) = misroutes_of(&s.observations[i], &s.events);
        notes = notes.followed_by(these);
        if routed {
            applicable = true;
        }
        i = i + 1;
    }
    assert(s.observations@.take(i as int) =~= s.observations@);
    judge_notes(applicable, "no produce/fetch for the routing topic observed", &notes)
}

/// Whether a request reached the new leader of a moved partition.
pub open spec fn reached(o: Observation, event: FaultEvent) -> bool {
    o.node_id == event.to_node && exists|i: int|
        0 <= i < o.routes@.len() && (#[trigger] o.routes@[i]).topic@
            == client::spec_routing_topic() && o.routes@[i].partition == event.partition
}

/// Whether any request reached it.
pub open spec fn redelivered(seen: Seq<Observation>, event: FaultEvent) -> bool {
    exists|i: int| 0 <= i < seen.len() && reached(#[trigger] seen[i], event)
}

fn has_reached(o: &Observation, event: FaultEvent) -> (r: bool)
    ensures
        r == reached(*o, event),
{
    if o.node_id != event.to_node {
        return false;
    }
    let mut i: usize = 0;
    while i < o.routes.len()
        invariant
            i <= o.routes@.len(),
            forall|j: int|
                0 <= j < i ==> !((#[trigger] o.routes@[j]).topic@ == client::spec_routing_topic()
                    && o.routes@[j].partition == event.partition),
            o.node_id == event.to_node,
        decreases o.routes@.len() - i,
    {
        if o.routes[i].partition == event.partition && same_text(
            o.routes[i].topic.as_str(),
            routing_topic(),
        ) {
            assert(o.routes@[i as int].partition == event.partition);
            return true;
        }
        i = i + 1;
    }
    false
}

fn is_redelivered(seen: &Vec<Observation>, event: FaultEvent) -> (r: bool)
    ensures
        r == redelivered(seen@, event),
{
    let mut i: usize = 0;
    while i < seen.len()
        invariant
            i <= seen@.len(),
            forall|j: int| 0 <= j < i ==> !reached(#[trigger] seen@[j], event),
        decreases seen@.len() - i,
    {
        if has_reached(&seen[i], event) {
            assert(reached(seen@[i as int], event));
            return true;
        }
        i = i + 1;
    }
    false
}

/// The moves that nothing followed.
pub open spec fn unrecovered(seen: Seq<Observation>, events: Seq<FaultEvent>) -> Seq<Seq<char>>
    decreases events.len(),
{
    if events.len() == 0 {
        Seq::empty()
    } else {
        let rest = unrecovered(seen, events.drop_last());
        let event = events.last();
        if redelivered(seen, event) {
            rest
        } else {
            rest.push(
                "after NOT_LEADER moved "@ + client::spec_routing_topic() + "["@ + text::dec(
                    event.partition as int,
                ) + "]'s leadership to broker "@ + text::dec(event.to_node as int)
                    + ", no produce/fetch ever reached it there"@,
            )
        }
    }
}

pub open spec fn spec_recovers_from_leader_change(s: Session) -> VerdictView {
    if s.fault != Some(HarnessFault::LeaderMove) {
        VerdictView::Skipped("leader-move fault not armed"@)
    } else {
        spec_judge_notes(
            s.events@.len() > 0,
            "the client sent nothing that triggered the leader move"@,
            unrecovered(s.observations@, s.events@),
        )
    }
}

fn recovers_from_leader_change(s: &Session) -> (r: Verdict)
    ensures
        r@ == spec_recovers_from_leader_change(*s),
{
    let armed = match s.fault {
        Some(fault) => fault == HarnessFault::LeaderMove,
        None => false,
    };
    if !armed {
        return Verdict::Skipped { reason: String::from_str("leader-move fault not armed") };
    }
    let mut notes = Notes::none();
    let mut i: usize = 0;
    while i < s.events.len()
        invariant
            i <= s.events@.len(),
            notes@ == unrecovered(s.observations@, s.events@.take(i as int)),
        decreases s.events@.len() - i,
    {
        assert(s.events@.take(i + 1).drop_last() =~= s.events@.take(i as int));
        let event = s.events[i];
        if !is_redelivered(&s.observations, event) {
            notes.push(
                line("after NOT_LEADER moved ").lit(routing_topic()).lit("[").num(
                    event.partition as i64,
                ).lit("]'s leadership to broker ").num(event.to_node as i64).lit(
                    ", no produce/fetch ever reached it there",
                ).done(),
            );
        }
        i = i + 1;
    }
    assert(s.events@.take(i as int) =~= s.events@);
    judge_notes(
        s.events.len() > 0,
        "the client sent nothing that triggered the leader move",
        &notes,
    )
}

/// Later requests on a connection, for which something holds.
pub open spec fn first_after(
    seen: Seq<Observation>,
    conn_id: usize,
    index: usize,
    what: spec_fn(Observation) -> bool,
) -> Option<Observation>
    decreases seen.len(),
{
    if seen.len() == 0 {
        None
    } else if seen[0].conn_id == conn_id && seen[0].index > index && what(seen[0]) {
        Some(seen[0])
    } else {
        first_after(seen.skip(1), conn_id, index, what)
    }
}

pub open spec fn any_request() -> spec_fn(Observation) -> bool {
    |o: Observation| true
}

/// Requests that arrived between two times.
pub open spec fn within(from: u64, until: u64) -> spec_fn(Observation) -> bool {
    |o: Observation| o.at_ms >= from && o.at_ms < until
}

fn later(o: &Observation, conn_id: usize, index: usize) -> (r: bool)
    ensures
        r == (o.conn_id == conn_id && o.index > index),
{
    o.conn_id == conn_id && o.index > index
}

fn spoke_after(seen: &Vec<Observation>, conn_id: usize, index: usize) -> (r: bool)
    ensures
        r == (first_after(seen@, conn_id, index, any_request()) is Some),
{
    let mut i: usize = 0;
    assert(seen@.skip(0) =~= seen@);
    while i < seen.len()
        invariant
            i <= seen@.len(),
            first_after(seen@, conn_id, index, any_request()) == first_after(
                seen@.skip(i as int),
                conn_id,
                index,
                any_request(),
            ),
        decreases seen@.len() - i,
    {
        assert(seen@.skip(i as int).skip(1) =~= seen@.skip(i + 1));
        if later(&seen[i], conn_id, index) {
            return true;
        }
        i = i + 1;
    }
    false
}

fn first_within(seen: &Vec<Observation>, conn_id: usize, index: usize, from: u64, until: u64) -> (r:
    Option<&Observation>)
    ensures
        (match r {
            Some(o) => Some(*o),
            None => None,
        }) == first_after(seen@, conn_id, index, within(from, until)),
{
    let mut i: usize = 0;
    assert(seen@.skip(0) =~= seen@);
    while i < seen.len()
        invariant
            i <= seen@.len(),
            first_after(seen@, conn_id, index, within(from, until)) == first_after(
                seen@.skip(i as int),
                conn_id,
                index,
                within(from, until),
            ),
        decreases seen@.len() - i,
    {
        assert(seen@.skip(i as int).skip(1) =~= seen@.skip(i + 1));
        if later(&seen[i], conn_id, index) && seen[i].at_ms >= from && seen[i].at_ms < until {
            return Some(&seen[i]);
        }
        i = i + 1;
    }
    None
}

/// A SASL token was sent again.
pub open spec fn is_token() -> spec_fn(Observation) -> bool {
    |o: Observation| o.api_key == SASL_AUTHENTICATE
}

/// The apis a client may still send after its token was refused.
pub open spec fn sasl_api(api_key: i16) -> bool {
    api_key == SASL_HANDSHAKE || api_key == SASL_AUTHENTICATE || api_key == API_VERSIONS
}

pub fn is_sasl_api(api_key: i16) -> (r: bool)
    ensures
        r == sasl_api(api_key),
{
    api_key == SASL_HANDSHAKE || api_key == SASL_AUTHENTICATE || api_key == API_VERSIONS
}

pub open spec fn is_data() -> spec_fn(Observation) -> bool {
    |o: Observation| !sasl_api(o.api_key)
}

fn first_data(seen: &Vec<Observation>, conn_id: usize, index: usize) -> (r: Option<&Observation>)
    ensures
        (match r {
            Some(o) => Some(*o),
            None => None,
        }) == first_after(seen@, conn_id, index, is_data()),
{
    let mut i: usize = 0;
    assert(seen@.skip(0) =~= seen@);
    while i < seen.len()
        invariant
            i <= seen@.len(),
            first_after(seen@, conn_id, index, is_data()) == first_after(
                seen@.skip(i as int),
                conn_id,
                index,
                is_data(),
            ),
        decreases seen@.len() - i,
    {
        assert(seen@.skip(i as int).skip(1) =~= seen@.skip(i + 1));
        if later(&seen[i], conn_id, index) && !is_sasl_api(seen[i].api_key) {
            return Some(&seen[i]);
        }
        i = i + 1;
    }
    None
}

fn sent_token(seen: &Vec<Observation>, conn_id: usize, index: usize) -> (r: bool)
    ensures
        r == (first_after(seen@, conn_id, index, is_token()) is Some),
{
    let mut i: usize = 0;
    assert(seen@.skip(0) =~= seen@);
    while i < seen.len()
        invariant
            i <= seen@.len(),
            first_after(seen@, conn_id, index, is_token()) == first_after(
                seen@.skip(i as int),
                conn_id,
                index,
                is_token(),
            ),
        decreases seen@.len() - i,
    {
        assert(seen@.skip(i as int).skip(1) =~= seen@.skip(i + 1));
        if later(&seen[i], conn_id, index) && seen[i].api_key == SASL_AUTHENTICATE {
            return true;
        }
        i = i + 1;
    }
    false
}

/// The first refusal from the `i`th on that was not heeded.
pub open spec fn unheeded(
    seen: Seq<Observation>,
    refusals: Seq<(usize, usize)>,
    i: int,
) -> VerdictView
    decreases refusals.len() - i,
{
    if !(0 <= i < refusals.len()) {
        VerdictView::Pass
    } else {
        let (conn_id, index) = refusals[i];
        match first_after(seen, conn_id, index, is_data()) {
            Some(bad) => VerdictView::Fail(
                "token refused on connection "@ + text::dec(conn_id as int) + ", then api "@
                    + text::dec(bad.api_key as int)
                    + " was sent on it anyway: the client read a success-shaped refusal as success"@,
            ),
            None => unheeded(seen, refusals, i + 1),
        }
    }
}

pub open spec fn spec_heeds_sasl_rejection(s: Session) -> VerdictView {
    if s.sasl_rejections@.len() == 0 {
        VerdictView::Skipped("no SASL token was refused in this session"@)
    } else {
        unheeded(s.observations@, s.sasl_rejections@, 0)
    }
}

/// A refusal shaped like success is still a refusal.
fn heeds_sasl_rejection(s: &Session) -> (r: Verdict)
    ensures
        r@ == spec_heeds_sasl_rejection(*s),
{
    if s.sasl_rejections.len() == 0 {
        return Verdict::Skipped {
            reason: String::from_str("no SASL token was refused in this session"),
        };
    }
    let mut i: usize = 0;
    while i < s.sasl_rejections.len()
        invariant
            i <= s.sasl_rejections@.len(),
            s.sasl_rejections@.len() > 0,
            spec_heeds_sasl_rejection(*s) == unheeded(
                s.observations@,
                s.sasl_rejections@,
                i as int,
            ),
        decreases s.sasl_rejections@.len() - i,
    {
        let (conn_id, index) = s.sasl_rejections[i];
        if let Some(bad) = first_data(&s.observations, conn_id, index) {
            return Verdict::Fail {
                details: line("token refused on connection ").count(conn_id as u128).lit(
                    ", then api ",
                ).num(bad.api_key as i64).lit(
                    " was sent on it anyway: the client read a success-shaped refusal as success",
                ).done(),
            };
        }
        i = i + 1;
    }
    Verdict::Pass
}

/// The first refusal from the `i`th on that was not answered.
pub open spec fn unanswered(
    seen: Seq<Observation>,
    refusals: Seq<(usize, usize)>,
    i: int,
) -> VerdictView
    decreases refusals.len() - i,
{
    if !(0 <= i < refusals.len()) {
        VerdictView::Pass
    } else {
        let (conn_id, index) = refusals[i];
        match first_after(seen, conn_id, index, is_token()) {
            Some(_) => unanswered(seen, refusals, i + 1),
            None => VerdictView::Fail(
                "token refused on connection "@ + text::dec(conn_id as int)
                    + " and the client said nothing more, leaving the exchange open"@,
            ),
        }
    }
}

pub open spec fn spec_acknowledges_sasl_rejection(s: Session) -> VerdictView {
    if s.sasl_rejections@.len() == 0 {
        VerdictView::Skipped("no SASL token was refused in this session"@)
    } else {
        unanswered(s.observations@, s.sasl_rejections@, 0)
    }
}

/// The refusal is answered, so that the server can close.
fn acknowledges_sasl_rejection(s: &Session) -> (r: Verdict)
    ensures
        r@ == spec_acknowledges_sasl_rejection(*s),
{
    if s.sasl_rejections.len() == 0 {
        return Verdict::Skipped {
            reason: String::from_str("no SASL token was refused in this session"),
        };
    }
    let mut i: usize = 0;
    while i < s.sasl_rejections.len()
        invariant
            i <= s.sasl_rejections@.len(),
            s.sasl_rejections@.len() > 0,
            spec_acknowledges_sasl_rejection(*s) == unanswered(
                s.observations@,
                s.sasl_rejections@,
                i as int,
            ),
        decreases s.sasl_rejections@.len() - i,
    {
        let (conn_id, index) = s.sasl_rejections[i];
        if !sent_token(&s.observations, conn_id, index) {
            return Verdict::Fail {
                details: line("token refused on connection ").count(conn_id as u128).lit(
                    " and the client said nothing more, leaving the exchange open",
                ).done(),
            };
        }
        i = i + 1;
    }
    Verdict::Pass
}

/// The first throttle from the `i`th on that the client had a chance to
/// observe: one on a connection it spoke on again.
pub open spec fn observed_throttle(
    seen: Seq<Observation>,
    throttles: Seq<(usize, usize, u64)>,
    i: int,
) -> Option<(usize, usize, u64)>
    decreases throttles.len() - i,
{
    if !(0 <= i < throttles.len()) {
        None
    } else if first_after(seen, throttles[i].0, throttles[i].1, any_request()) is Some {
        Some(throttles[i])
    } else {
        observed_throttle(seen, throttles, i + 1)
    }
}

fn find_throttle(seen: &Vec<Observation>, throttles: &Vec<(usize, usize, u64)>) -> (r: Option<
    (usize, usize, u64),
>)
    ensures
        r == observed_throttle(seen@, throttles@, 0),
{
    let mut i: usize = 0;
    while i < throttles.len()
        invariant
            i <= throttles@.len(),
            observed_throttle(seen@, throttles@, 0) == observed_throttle(
                seen@,
                throttles@,
                i as int,
            ),
        decreases throttles@.len() - i,
    {
        if spoke_after(seen, throttles[i].0, throttles[i].1) {
            return Some(throttles[i]);
        }
        i = i + 1;
    }
    None
}

/// The pause is enforced from its middle on: requests already on the wire
/// when the throttled answer arrived are fair.
pub const ENFORCED_FROM: u64 = 200;
/// And up to an eighth before its end: resuming a little early is rounding.
pub const ENFORCED_UNTIL: u64 = 350;

pub open spec fn spec_honours_throttle_time(s: Session) -> VerdictView {
    if s.throttles@.len() == 0 {
        VerdictView::Skipped("no response carried a throttle in this session"@)
    } else {
        match observed_throttle(s.observations@, s.throttles@, 0) {
            None => VerdictView::Skipped(
                "every throttled connection went quiet afterwards, so there was no pause to observe"@,
            ),
            Some((conn_id, index, sent_at)) => match first_after(
                s.observations@,
                conn_id,
                index,
                within(sent_at.wrapping_add(ENFORCED_FROM), sent_at.wrapping_add(ENFORCED_UNTIL)),
            ) {
                None => VerdictView::Pass,
                Some(offender) => VerdictView::Fail(
                    "answered with throttle_time_ms="@ + text::dec(THROTTLE_MS as int)
                        + " and the client was still sending "@ + text::dec(
                        if offender.at_ms >= sent_at {
                            offender.at_ms - sent_at
                        } else {
                            0
                        },
                    ) + "ms into the pause (api "@ + text::dec(offender.api_key as int) + " v"@
                        + text::dec(offender.api_version as int)
                        + "); requests already in flight are fair, but by now they have drained and the broker is not reading yet — that request waits out the mute instead of the client waiting out the throttle"@,
                ),
            },
        }
    }
}

/// A throttled client must pause before it sends again on that connection.
fn honours_throttle_time(s: &Session) -> (r: Verdict)
    ensures
        r@ == spec_honours_throttle_time(*s),
{
    if s.throttles.len() == 0 {
        return Verdict::Skipped {
            reason: String::from_str("no response carried a throttle in this session"),
        };
    }
    let (conn_id, index, sent_at) = match find_throttle(&s.observations, &s.throttles) {
        None => return Verdict::Skipped {
            reason: String::from_str(
                "every throttled connection went quiet afterwards, so there was no pause to observe",
            ),
        },
        Some(throttle) => throttle,
    };
    let from: u64 = sent_at.wrapping_add(ENFORCED_FROM);
    let until: u64 = sent_at.wrapping_add(ENFORCED_UNTIL);
    match first_within(&s.observations, conn_id, index, from, until) {
        None => Verdict::Pass,
        Some(offender) => {
            let into: u64 = if offender.at_ms >= sent_at {
                offender.at_ms - sent_at
            } else {
                0
            };
            Verdict::Fail {
                details: line("answered with throttle_time_ms=").num(THROTTLE_MS as i64).lit(
                    " and the client was still sending ",
                ).count(into as u128).lit("ms into the pause (api ").num(
                    offender.api_key as i64,
                ).lit(" v").num(offender.api_version as i64).lit(
                    "); requests already in flight are fair, but by now they have drained and the broker is not reading yet — that request waits out the mute instead of the client waiting out the throttle",
                ).done(),
            }
        },
    }
}

/// Whether the client did anything after an answer: on that connection, or
/// on another.
pub open spec fn carried_on(seen: Seq<Observation>, conn_id: usize, index: usize) -> bool {
    exists|i: int|
        0 <= i < seen.len() && ((#[trigger] seen[i]).conn_id != conn_id || seen[i].index > index)
}

fn has_carried_on(seen: &Vec<Observation>, conn_id: usize, index: usize) -> (r: bool)
    ensures
        r == carried_on(seen@, conn_id, index),
{
    let mut i: usize = 0;
    while i < seen.len()
        invariant
            i <= seen@.len(),
            forall|j: int|
                0 <= j < i ==> !((#[trigger] seen@[j]).conn_id != conn_id || seen@[j].index
                    > index),
        decreases seen@.len() - i,
    {
        if seen[i].conn_id != conn_id || seen[i].index > index {
            assert(seen@[i as int].conn_id != conn_id || seen@[i as int].index > index);
            return true;
        }
        i = i + 1;
    }
    false
}

pub open spec fn spec_tolerates_unknown_tagged_fields(s: Session) -> VerdictView {
    if s.tagged@.len() == 0 {
        VerdictView::Skipped("no response carried an unknown tagged field in this session"@)
    } else {
        let (conn_id, index) = s.tagged@[0];
        if carried_on(s.observations@, conn_id, index) {
            VerdictView::Pass
        } else {
            VerdictView::Fail(
                "answered request "@ + text::dec(index as int) + " on connection "@ + text::dec(
                    conn_id as int,
                ) + " with tag "@ + text::dec(UNKNOWN_TAG as int)
                    + ", a field no schema defines, and the client sent nothing further anywhere; a client that stops at a field from the future stops at every broker newer than itself"@,
            )
        }
    }
}

/// A client must carry on past a tagged field it does not know. One that
/// reconnects has tolerated it too.
fn tolerates_unknown_tagged_fields(s: &Session) -> (r: Verdict)
    ensures
        r@ == spec_tolerates_unknown_tagged_fields(*s),
{
    if s.tagged.len() == 0 {
        return Verdict::Skipped {
            reason: String::from_str("no response carried an unknown tagged field in this session"),
        };
    }
    let (conn_id, index) = s.tagged[0];
    if has_carried_on(&s.observations, conn_id, index) {
        return Verdict::Pass;
    }
    Verdict::Fail {
        details: line("answered request ").count(index as u128).lit(" on connection ").count(
            conn_id as u128,
        ).lit(" with tag ").num(UNKNOWN_TAG as i64).lit(
            ", a field no schema defines, and the client sent nothing further anywhere; a client that stops at a field from the future stops at every broker newer than itself",
        ).done(),
    }
}

/// The checks that a client is put to, in run order.
#[derive(Debug, Clone, Copy, PartialEq, Eq, Structural)]
pub enum ClientCheck {
    HeaderWellFormed,
    StartsWithApiVersions,
    CorrelationIdsUnique,
    RespectsAdvertisedVersions,
    BodyDecodes,
    RoutesToPartitionLeader,
    RecoversFromLeaderChange,
    ToleratesUnknownTaggedFields,
    HonoursThrottleTime,
    HeedsSaslRejection,
    AcknowledgesSaslRejection,
}

/// Every client-side check, in run order.
pub open spec fn spec_client_checks() -> Seq<ClientCheck> {
    seq![
        ClientCheck::HeaderWellFormed,
        ClientCheck::StartsWithApiVersions,
        ClientCheck::CorrelationIdsUnique,
        ClientCheck::RespectsAdvertisedVersions,
        ClientCheck::BodyDecodes,
        ClientCheck::RoutesToPartitionLeader,
        ClientCheck::RecoversFromLeaderChange,
        ClientCheck::ToleratesUnknownTaggedFields,
        ClientCheck::HonoursThrottleTime,
        ClientCheck::HeedsSaslRejection,
        ClientCheck::AcknowledgesSaslRejection,
    ]
}

pub fn client_checks() -> (r: Vec<ClientCheck>)
    ensures
        r@ == spec_client_checks(),
{
    let checks: Vec<ClientCheck> = vec![
        ClientCheck::HeaderWellFormed,
        ClientCheck::StartsWithApiVersions,
        ClientCheck::CorrelationIdsUnique,
        ClientCheck::RespectsAdvertisedVersions,
        ClientCheck::BodyDecodes,
        ClientCheck::RoutesToPartitionLeader,
        ClientCheck::RecoversFromLeaderChange,
        ClientCheck::ToleratesUnknownTaggedFields,
        ClientCheck::HonoursThrottleTime,
        ClientCheck::HeedsSaslRejection,
        ClientCheck::AcknowledgesSaslRejection,
    ];
    assert(checks@ =~= spec_client_checks());
    checks
}

impl ClientCheck {
    /// The check's stable name, in specifications.
    pub open spec fn spec_id(self) -> Seq<char> {
        match self {
            ClientCheck::HeaderWellFormed => "client/header-well-formed"@,
            ClientCheck::StartsWithApiVersions => "client/starts-with-api-versions"@,
            ClientCheck::CorrelationIdsUnique => "client/correlation-ids-unique"@,
            ClientCheck::RespectsAdvertisedVersions => "client/respects-advertised-versions"@,
            ClientCheck::BodyDecodes => "client/body-decodes"@,
            ClientCheck::RoutesToPartitionLeader => "client/routes-to-partition-leader"@,
            ClientCheck::RecoversFromLeaderChange => "client/recovers-from-leader-change"@,
            ClientCheck::ToleratesUnknownTaggedFields => "client/tolerates-unknown-tagged-fields"@,
            ClientCheck::HonoursThrottleTime => "client/honours-throttle-time"@,
            ClientCheck::HeedsSaslRejection => "client/heeds-sasl-rejection"@,
            ClientCheck::AcknowledgesSaslRejection => "client/acknowledges-sasl-rejection"@,
        }
    }

    /// The check's stable name. Baselines and reports key on it.
    pub fn id(&self) -> (r: &'static str)
        ensures
            r@ == self.spec_id(),
    {
        match self {
            ClientCheck::HeaderWellFormed => "client/header-well-formed",
            ClientCheck::StartsWithApiVersions => "client/starts-with-api-versions",
            ClientCheck::CorrelationIdsUnique => "client/correlation-ids-unique",
            ClientCheck::RespectsAdvertisedVersions => "client/respects-advertised-versions",
            ClientCheck::BodyDecodes => "client/body-decodes",
            ClientCheck::RoutesToPartitionLeader => "client/routes-to-partition-leader",
            ClientCheck::RecoversFromLeaderChange => "client/recovers-from-leader-change",
            ClientCheck::ToleratesUnknownTaggedFields => "client/tolerates-unknown-tagged-fields",
            ClientCheck::HonoursThrottleTime => "client/honours-throttle-time",
            ClientCheck::HeedsSaslRejection => "client/heeds-sasl-rejection",
            ClientCheck::AcknowledgesSaslRejection => "client/acknowledges-sasl-rejection",
        }
    }

    /// What the check requires, in specifications.
    pub open spec fn spec_requirement(self) -> Seq<char> {
        match self {
            ClientCheck::HeaderWellFormed =>
                "every request carries a decodable header at the version implied by its (api key, api version)"@,
            ClientCheck::StartsWithApiVersions =>
                "the first request on every connection is ApiVersions, so versions are negotiated before anything else is sent"@,
            ClientCheck::CorrelationIdsUnique =>
                "correlation ids are not reused within a connection, so responses are unambiguously attributable"@,
            ClientCheck::RespectsAdvertisedVersions =>
                "after negotiation the client only sends apis and versions the server advertised"@,
            ClientCheck::BodyDecodes =>
                "request bodies decode per the message schema at the claimed version, with no trailing bytes"@,
            ClientCheck::RoutesToPartitionLeader =>
                "produce and fetch requests go to the broker the metadata advertises as the partition's leader"@,
            ClientCheck::RecoversFromLeaderChange =>
                "after a NOT_LEADER_OR_FOLLOWER answer, the client refreshes metadata and re-delivers to the newly advertised leader"@,
            ClientCheck::ToleratesUnknownTaggedFields =>
                "keeps going after a response carrying a tagged field it does not know, which is what the tagged-field section is for"@,
            ClientCheck::HonoursThrottleTime =>
                "waits out a response's throttle_time_ms before sending again on that connection, instead of pushing into a broker that has stopped reading"@,
            ClientCheck::HeedsSaslRejection =>
                "after a SASL token is refused, the client sends no data api on that connection — a refusal shaped like success is still a refusal"@,
            ClientCheck::AcknowledgesSaslRejection =>
                "after a SASL token is refused, the client answers once more so the server can close the exchange (RFC 7628 §3.1)"@,
        }
    }

    /// What the check requires, phrased as a claim about the subject.
    pub fn requirement(&self) -> (r: &'static str)
        ensures
            r@ == self.spec_requirement(),
    {
        match self {
            ClientCheck::HeaderWellFormed =>
                "every request carries a decodable header at the version implied by its (api key, api version)",
            ClientCheck::StartsWithApiVersions =>
                "the first request on every connection is ApiVersions, so versions are negotiated before anything else is sent",
            ClientCheck::CorrelationIdsUnique =>
                "correlation ids are not reused within a connection, so responses are unambiguously attributable",
            ClientCheck::RespectsAdvertisedVersions =>
                "after negotiation the client only sends apis and versions the server advertised",
            ClientCheck::BodyDecodes =>
                "request bodies decode per the message schema at the claimed version, with no trailing bytes",
            ClientCheck::RoutesToPartitionLeader =>
                "produce and fetch requests go to the broker the metadata advertises as the partition's leader",
            ClientCheck::RecoversFromLeaderChange =>
                "after a NOT_LEADER_OR_FOLLOWER answer, the client refreshes metadata and re-delivers to the newly advertised leader",
            ClientCheck::ToleratesUnknownTaggedFields =>
                "keeps going after a response carrying a tagged field it does not know, which is what the tagged-field section is for",
            ClientCheck::HonoursThrottleTime =>
                "waits out a response's throttle_time_ms before sending again on that connection, instead of pushing into a broker that has stopped reading",
            ClientCheck::HeedsSaslRejection =>
                "after a SASL token is refused, the client sends no data api on that connection — a refusal shaped like success is still a refusal",
            ClientCheck::AcknowledgesSaslRejection =>
                "after a SASL token is refused, the client answers once more so the server can close the exchange (RFC 7628 §3.1)",
        }
    }

    /// What the check makes of a session, in specifications.
    pub open spec fn spec_verdict(self, session: Session, schema: HarnessSchema) -> VerdictView {
        match self {
            ClientCheck::HeaderWellFormed => spec_header_well_formed(session),
            ClientCheck::StartsWithApiVersions => spec_starts_with_api_versions(session),
            ClientCheck::CorrelationIdsUnique => spec_correlation_ids_unique(session),
            ClientCheck::RespectsAdvertisedVersions => {
                spec_respects_advertised_versions(session, schema)
            },
            ClientCheck::BodyDecodes => spec_body_decodes(session),
            ClientCheck::RoutesToPartitionLeader => spec_routes_to_partition_leader(session),
            ClientCheck::RecoversFromLeaderChange => spec_recovers_from_leader_change(session),
            ClientCheck::ToleratesUnknownTaggedFields => {
                spec_tolerates_unknown_tagged_fields(session)
            },
            ClientCheck::HonoursThrottleTime => spec_honours_throttle_time(session),
            ClientCheck::HeedsSaslRejection => spec_heeds_sasl_rejection(session),
            ClientCheck::AcknowledgesSaslRejection => spec_acknowledges_sasl_rejection(session),
        }
    }

    /// What the check makes of a session.
    pub fn verdict(&self, session: &Session, schema: &HarnessSchema) -> (r: Verdict)
        ensures
            r@ == self.spec_verdict(*session, *schema),
    {
        match self {
            ClientCheck::HeaderWellFormed => header_well_formed(session),
            ClientCheck::StartsWithApiVersions => starts_with_api_versions(session),
            ClientCheck::CorrelationIdsUnique => correlation_ids_unique(session),
            ClientCheck::RespectsAdvertisedVersions => {
                respects_advertised_versions(session, schema)
            },
            ClientCheck::BodyDecodes => body_decodes(session),
            ClientCheck::RoutesToPartitionLeader => routes_to_partition_leader(session),
            ClientCheck::RecoversFromLeaderChange => recovers_from_leader_change(session),
            ClientCheck::ToleratesUnknownTaggedFields => tolerates_unknown_tagged_fields(session),
            ClientCheck::HonoursThrottleTime => honours_throttle_time(session),
            ClientCheck::HeedsSaslRejection => heeds_sasl_rejection(session),
            ClientCheck::AcknowledgesSaslRejection => acknowledges_sasl_rejection(session),
        }
    }

    /// A number that tells the checks' names apart.
    pub open spec fn mark(self) -> int {
        match self {
            ClientCheck::HeaderWellFormed => 2959,
            ClientCheck::StartsWithApiVersions => 2989,
            ClientCheck::CorrelationIdsUnique => 2819,
            ClientCheck::RespectsAdvertisedVersions => 2609,
            ClientCheck::BodyDecodes => 2617,
            ClientCheck::RoutesToPartitionLeader => 2991,
            ClientCheck::RecoversFromLeaderChange => 2656,
            ClientCheck::ToleratesUnknownTaggedFields => 2564,
            ClientCheck::HonoursThrottleTime => 2962,
            ClientCheck::HeedsSaslRejection => 1305,
            ClientCheck::AcknowledgesSaslRejection => 3088,
        }
    }
}

/// Judges a recorded session by every client-side check, in run order.
pub fn evaluate(session: &Session, schema: &HarnessSchema, subject: String) -> (r: Report)
    ensures
        r.format == report::FORMAT,
        r.suite@ == report::spec_suite(),
        r.subject == subject,
        r.outcomes@.len() == spec_client_checks().len(),
        forall|i: int|
            0 <= i < r.outcomes@.len() ==> {
                let o = #[trigger] r.outcomes@[i];
                let check = spec_client_checks()[i];
                &&& o.id@ == check.spec_id()
                &&& o.requirement@ == check.spec_requirement()
                &&& o.verdict@ == check.spec_verdict(*session, *schema)
            },
{
    let checks = client_checks();
    let mut outcomes: Vec<CheckOutcome> = Vec::new();
    let mut i: usize = 0;
    while i < checks.len()
        invariant
            i <= checks@.len(),
            checks@ == spec_client_checks(),
            outcomes@.len() == i,
            forall|j: int|
                0 <= j < i ==> {
                    let o = #[trigger] outcomes@[j];
                    let check = checks@[j];
                    &&& o.id@ == check.spec_id()
                    &&& o.requirement@ == check.spec_requirement()
                    &&& o.verdict@ == check.spec_verdict(*session, *schema)
                },
        decreases checks@.len() - i,
    {
        let check = checks[i];
        outcomes.push(
            CheckOutcome::new(
                CheckId(String::from_str(check.id())),
                String::from_str(check.requirement()),
                check.verdict(session, schema),
            ),
        );
        i = i + 1;
    }
    Report::new(subject, outcomes)
}

proof fn lemma_client_mark(check: ClientCheck)
    ensures
        crate::checks::server::name_mark(check.spec_id()) == check.mark(),
{
    match check {
        ClientCheck::HeaderWellFormed => {
            reveal_strlit("client/header-well-formed");
        },
        ClientCheck::StartsWithApiVersions => {
            reveal_strlit("client/starts-with-api-versions");
        },
        ClientCheck::CorrelationIdsUnique => {
            reveal_strlit("client/correlation-ids-unique");
        },
        ClientCheck::RespectsAdvertisedVersions => {
            reveal_strlit("client/respects-advertised-versions");
        },
        ClientCheck::BodyDecodes => {
            reveal_strlit("client/body-decodes");
        },
        ClientCheck::RoutesToPartitionLeader => {
            reveal_strlit("client/routes-to-partition-leader");
        },
        ClientCheck::RecoversFromLeaderChange => {
            reveal_strlit("client/recovers-from-leader-change");
        },
        ClientCheck::ToleratesUnknownTaggedFields => {
            reveal_strlit("client/tolerates-unknown-tagged-fields");
        },
        ClientCheck::HonoursThrottleTime => {
            reveal_strlit("client/honours-throttle-time");
        },
        ClientCheck::HeedsSaslRejection => {
            reveal_strlit("client/heeds-sasl-rejection");
        },
        ClientCheck::AcknowledgesSaslRejection => {
            reveal_strlit("client/acknowledges-sasl-rejection");
        },
    }
}

/// No two client-side checks go by the same name, and none by the name of a
/// server-side check.
pub proof fn law_client_ids_differ(a: ClientCheck, b: ClientCheck, other: ServerCheck)
    ensures
        a.spec_id() == b.spec_id() ==> a == b,
        a.spec_id() != other.spec_id(),
{
    lemma_client_mark(a);
    lemma_client_mark(b);
    crate::checks::server::lemma_server_mark(other);
}

/// The run order names every client-side check, and each of them once.
pub proof fn law_client_checks_complete(check: ClientCheck)
    ensures
        exists|i: int|
            0 <= i < spec_client_checks().len() && #[trigger] spec_client_checks()[i] == check,
        forall|i: int, j: int|
            0 <= i < j < spec_client_checks().len() ==> spec_client_checks()[i]
                != spec_client_checks()[j],
{
    match check {
        ClientCheck::HeaderWellFormed => {
            assert(spec_client_checks()[0] == check);
        },
        ClientCheck::StartsWithApiVersions => {
            assert(spec_client_checks()[1] == check);
        },
        ClientCheck::CorrelationIdsUnique => {
            assert(spec_client_checks()[2] == check);
        },
        ClientCheck::RespectsAdvertisedVersions => {
            assert(spec_client_checks()[3] == check);
        },
        ClientCheck::BodyDecodes => {
            assert(spec_client_checks()[4] == check);
        },
        ClientCheck::RoutesToPartitionLeader => {
            assert(spec_client_checks()[5] == check);
        },
        ClientCheck::RecoversFromLeaderChange => {
            assert(spec_client_checks()[6] == check);
        },
        ClientCheck::ToleratesUnknownTaggedFields => {
            assert(spec_client_checks()[7] == check);
        },
        ClientCheck::HonoursThrottleTime => {
            assert(spec_client_checks()[8] == check);
        },
        ClientCheck::HeedsSaslRejection => {
            assert(spec_client_checks()[9] == check);
        },
        ClientCheck::AcknowledgesSaslRejection => {
            assert(spec_client_checks()[10] == check);
        },
    }
    assert forall|i: int, j: int| 0 <= i < j < spec_client_checks().len() implies
        spec_client_checks()[i] != spec_client_checks()[j] by {
        assert(spec_client_checks()[i].mark() != spec_client_checks()[j].mark());
    }
}

pub proof fn lemma_gathered_empty(
    seen: Seq<Observation>,
    notes: spec_fn(Observation) -> Seq<Seq<char>>,
)
    ensures
        gathered(seen, notes).len() == 0 <==> forall|i: int|
            0 <= i < seen.len() ==> notes(#[trigger] seen[i]).len() == 0,
    decreases seen.len(),
{
    if seen.len() > 0 {
        let rest = seen.drop_last();
        lemma_gathered_empty(rest, notes);
        if gathered(rest, notes).len() == 0 {
            assert forall|i: int| 0 <= i < seen.len() && notes(seen.last()).len() == 0 implies notes(
                #[trigger] seen[i],
            ).len() == 0 by {
                if i < seen.len() - 1 {
                    assert(rest[i] == seen[i]);
                }
            }
        } else {
            let i = choose|i: int| 0 <= i < rest.len() && notes(#[trigger] rest[i]).len() != 0;
            assert(notes(seen[i]).len() != 0);
        }
    }
}

/// The header check fails a client exactly where one of its requests had a
/// header that does not decode.
pub proof fn law_header_check(s: Session)
    ensures
        spec_header_well_formed(s) is Fail <==> exists|i: int|
            0 <= i < s.observations@.len() && (#[trigger] s.observations@[i]).header_error is Some,
{
    lemma_gathered_empty(s.observations@, header_notes());
    let notes = header_notes();
    assert forall|i: int| 0 <= i < s.observations@.len() implies (notes(
        #[trigger] s.observations@[i],
    ).len() == 0 <==> s.observations@[i].header_error is None) by {}
}

/// The negotiation check fails a client exactly where it began a connection
/// with anything but ApiVersions.
pub proof fn law_negotiation_check(s: Session)
    ensures
        spec_starts_with_api_versions(s) is Fail <==> exists|i: int|
            0 <= i < s.observations@.len() && (#[trigger] s.observations@[i]).index == 0
                && s.observations@[i].api_key != API_VERSIONS,
{
    lemma_gathered_empty(s.observations@, start_notes());
    let notes = start_notes();
    assert forall|i: int| 0 <= i < s.observations@.len() implies (notes(
        #[trigger] s.observations@[i],
    ).len() == 0 <==> !(s.observations@[i].index == 0 && s.observations@[i].api_key
        != API_VERSIONS)) by {}
}

proof fn lemma_reuse_empty(seen: Seq<Observation>)
    ensures
        reuse_notes(seen).len() == 0 <==> forall|i: int|
            0 <= i < seen.len() ==> !((#[trigger] seen[i]).header is Some && id_used(
                seen.take(i),
                seen[i].conn_id,
                seen[i].header->Some_0.correlation_id,
            )),
    decreases seen.len(),
{
    if seen.len() > 0 {
        let rest = seen.drop_last();
        lemma_reuse_empty(rest);
        assert(seen.take(seen.len() - 1) =~= rest);
        assert forall|i: int| 0 <= i < rest.len() implies #[trigger] rest[i] == seen[i]
            && rest.take(i) == seen.take(i) by {
            assert(rest.take(i) =~= seen.take(i));
        }
        if reuse_notes(rest).len() == 0 {
            assert forall|i: int|
                0 <= i < seen.len() && reuse_notes(seen).len() == 0 implies !((
            #[trigger] seen[i]).header is Some && id_used(
                seen.take(i),
                seen[i].conn_id,
                seen[i].header->Some_0.correlation_id,
            )) by {
                if i < seen.len() - 1 {
                    assert(rest[i] == seen[i]);
                }
            }
            if reuse_notes(seen).len() != 0 {
                assert(seen[seen.len() - 1].header is Some && id_used(
                    seen.take(seen.len() - 1),
                    seen[seen.len() - 1].conn_id,
                    seen[seen.len() - 1].header->Some_0.correlation_id,
                ));
            }
        } else {
            let i = choose|i: int|
                0 <= i < rest.len() && (#[trigger] rest[i]).header is Some && id_used(
                    rest.take(i),
                    rest[i].conn_id,
                    rest[i].header->Some_0.correlation_id,
                );
            assert(rest[i] == seen[i]);
            assert(seen[i].header is Some && id_used(
                seen.take(i),
                seen[i].conn_id,
                seen[i].header->Some_0.correlation_id,
            ));
        }
    }
}

/// The correlation check fails a client exactly where a request has the
/// correlation id of an earlier one on its connection.
pub proof fn law_correlation_check(s: Session)
    ensures
        spec_correlation_ids_unique(s) is Fail <==> exists|i: int|
            0 <= i < s.observations@.len() && (#[trigger] s.observations@[i]).header is Some
                && id_used(
                s.observations@.take(i),
                s.observations@[i].conn_id,
                s.observations@[i].header->Some_0.correlation_id,
            ),
{
    lemma_reuse_empty(s.observations@);
}

/// A check on a staged fault never judges a session in which the fault left
/// no mark.
pub proof fn law_unstaged_faults_are_skipped(s: Session)
    ensures
        s.events@.len() == 0 ==> spec_recovers_from_leader_change(s) is Skipped,
        s.throttles@.len() == 0 ==> spec_honours_throttle_time(s) is Skipped,
        s.tagged@.len() == 0 ==> spec_tolerates_unknown_tagged_fields(s) is Skipped,
        s.sasl_rejections@.len() == 0 ==> spec_heeds_sasl_rejection(s) is Skipped
            && spec_acknowledges_sasl_rejection(s) is Skipped,
{
}

/// Nothing is held against a client that said nothing.
pub proof fn law_silent_client_fails_nothing(check: ClientCheck, s: Session, schema: HarnessSchema)
    requires
        s.observations@.len() == 0,
        s.events@.len() == 0,
        s.sasl_rejections@.len() == 0,
        s.throttles@.len() == 0,
        s.tagged@.len() == 0,
    ensures
        check.spec_verdict(s, schema) is Skipped,
{
}

} // verus!

//! When a session passes each of the client-side checks, said of what the
//! session holds.

use vstd::prelude::*;
use vstd::string::*;

use crate::checks::client;
use crate::checks::client::{FaultEvent, HarnessFault, HarnessSchema, Observation, Session};
use crate::checks::client_checks;
use crate::checks::client_checks::ClientCheck;
use crate::wire;

verus! {

/// Headers: a client that sent anything passes where every header decoded, and
/// fails where one did not.
pub proof fn law_headers_are_judged(s: Session, schema: HarnessSchema)
    ensures
        ({
            let verdict = ClientCheck::HeaderWellFormed.spec_verdict(s, schema);
            let seen = s.observations@;
            &&& verdict is Skipped <==> seen.len() == 0
            &&& verdict is Fail <==> exists|i: int|
                0 <= i < seen.len() && (#[trigger] seen[i]).header_error is Some
            &&& verdict is Pass <==> seen.len() > 0 && forall|i: int|
                0 <= i < seen.len() ==> (#[trigger] seen[i]).header_error is None
        }),
{
    let notes = client_checks::header_notes();
    client_checks::lemma_gathered_empty(s.observations@, notes);
    assert forall|i: int| 0 <= i < s.observations@.len() implies (notes(
        #[trigger] s.observations@[i],
    ).len() == 0 <==> s.observations@[i].header_error is None) by {}
    if s.observations@.len() == 0 {
        assert(client_checks::gathered(s.observations@, notes).len() == 0);
    }
}

/// Negotiation: a client that sent anything passes where the first request of
/// every connection is ApiVersions, and fails where one is not.
pub proof fn law_first_requests_are_judged(s: Session, schema: HarnessSchema)
    ensures
        ({
            let verdict = ClientCheck::StartsWithApiVersions.spec_verdict(s, schema);
            let seen = s.observations@;
            &&& verdict is Skipped <==> seen.len() == 0
            &&& verdict is Fail <==> exists|i: int|
                0 <= i < seen.len() && (#[trigger] seen[i]).index == 0 && seen[i].api_key
                    != wire::API_VERSIONS
            &&& verdict is Pass <==> seen.len() > 0 && forall|i: int|
                0 <= i < seen.len() && (#[trigger] seen[i]).index == 0 ==> seen[i].api_key
                    == wire::API_VERSIONS
        }),
{
    let notes = client_checks::start_notes();
    client_checks::lemma_gathered_empty(s.observations@, notes);
    assert forall|i: int| 0 <= i < s.observations@.len() implies (notes(
        #[trigger] s.observations@[i],
    ).len() == 0 <==> !(s.observations@[i].index == 0 && s.observations@[i].api_key
        != wire::API_VERSIONS)) by {}
}

/// Whether two requests came on one connection with one correlation id.
pub open spec fn share_an_id(a: Observation, b: Observation) -> bool {
    &&& a.conn_id == b.conn_id
    &&& a.header matches Some(one) && b.header matches Some(other) && one.correlation_id
        == other.correlation_id
}

/// Correlation ids: a client that sent anything passes where no two requests of
/// one connection have the same id, and fails where two have. The same id on
/// two connections is no reuse.
pub proof fn law_correlation_ids_are_judged(s: Session, schema: HarnessSchema)
    ensures
        ({
            let verdict = ClientCheck::CorrelationIdsUnique.spec_verdict(s, schema);
            let seen = s.observations@;
            &&& verdict is Skipped <==> seen.len() == 0
            &&& verdict is Fail <==> exists|i: int, j: int|
                0 <= i < j < seen.len() && #[trigger] share_an_id(seen[i], seen[j])
            &&& verdict is Pass <==> seen.len() > 0 && forall|i: int, j: int|
                0 <= i < j < seen.len() ==> !#[trigger] share_an_id(seen[i], seen[j])
        }),
{
    let seen = s.observations@;
    lemma_reused(seen);
}

proof fn lemma_reused(seen: Seq<Observation>)
    ensures
        client_checks::reuse_notes(seen).len() > 0 <==> exists|i: int, j: int|
            0 <= i < j < seen.len() && #[trigger] share_an_id(seen[i], seen[j]),
    decreases seen.len(),
{
    if seen.len() > 0 {
        let rest = seen.drop_last();
        let o = seen.last();
        let last = seen.len() - 1;
        lemma_reused(rest);
        if exists|i: int, j: int|
            0 <= i < j < seen.len() && #[trigger] share_an_id(seen[i], seen[j]) {
            let (i, j) = choose|i: int, j: int|
                0 <= i < j < seen.len() && #[trigger] share_an_id(seen[i], seen[j]);
            if j < last {
                assert(share_an_id(rest[i], rest[j]));
            } else {
                assert(rest[i] == seen[i]);
                assert(client_checks::id_used(
                    rest,
                    o.conn_id,
                    o.header->Some_0.correlation_id,
                ));
            }
        }
        if client_checks::reuse_notes(rest).len() > 0 {
            let (i, j) = choose|i: int, j: int|
                0 <= i < j < rest.len() && #[trigger] share_an_id(rest[i], rest[j]);
            assert(share_an_id(seen[i], seen[j]));
        } else if client_checks::reuse_notes(seen).len() > 0 {
            let id = o.header->Some_0.correlation_id;
            let i = choose|i: int|
                0 <= i < rest.len() && (#[trigger] rest[i]).conn_id == o.conn_id
                    && rest[i].header is Some && rest[i].header->Some_0.correlation_id == id;
            assert(share_an_id(seen[i], seen[last]));
        }
    }
}

/// Whether the harness advertises a version of an api.
pub open spec fn offers(schema: HarnessSchema, api_key: i16, version: i16) -> bool {
    ||| api_key == wire::PRODUCE && schema.produce.min <= version <= schema.produce.max
    ||| api_key == wire::INIT_PRODUCER_ID && schema.init_producer_id.min <= version
        <= schema.init_producer_id.max
    ||| api_key == wire::SASL_HANDSHAKE && schema.sasl_handshake.min <= version
        <= schema.sasl_handshake.max
    ||| api_key == wire::SASL_AUTHENTICATE && schema.sasl_authenticate.min <= version
        <= schema.sasl_authenticate.max
    ||| api_key == wire::FETCH && schema.fetch.min <= version <= schema.fetch.max
    ||| api_key == wire::METADATA && schema.metadata.min <= version <= schema.metadata.max
    ||| api_key == wire::LIST_OFFSETS && schema.list_offsets.min <= version
        <= schema.list_offsets.max
}

/// Versions: beside ApiVersions, which may be probed at any version, a client
/// passes where every request is of an api and a version that is advertised,
/// and fails where one is not.
pub proof fn law_versions_are_judged(s: Session, schema: HarnessSchema)
    ensures
        ({
            let verdict = ClientCheck::RespectsAdvertisedVersions.spec_verdict(s, schema);
            let seen = s.observations@;
            &&& verdict is Skipped <==> forall|i: int|
                0 <= i < seen.len() ==> (#[trigger] seen[i]).api_key == wire::API_VERSIONS
            &&& verdict is Fail <==> exists|i: int|
                0 <= i < seen.len() && (#[trigger] seen[i]).api_key != wire::API_VERSIONS
                    && !offers(schema, seen[i].api_key, seen[i].api_version)
            &&& verdict is Pass || verdict is Skipped || verdict is Fail
        }),
{
    let seen = s.observations@;
    let rows = client::spec_advertised(schema);
    let notes = client_checks::version_notes(rows);
    let asks = client_checks::is_not_probe();
    client_checks::lemma_gathered_empty(seen, notes);
    assert forall|i: int| 0 <= i < seen.len() implies (notes(#[trigger] seen[i]).len() == 0 <==> (
    seen[i].api_key == wire::API_VERSIONS || offers(
        schema,
        seen[i].api_key,
        seen[i].api_version,
    ))) by {
        if seen[i].api_key != wire::API_VERSIONS {
            lemma_offered(schema, seen[i].api_key, seen[i].api_version);
        }
    }
    if client_checks::applies(seen, asks) {
        let k = choose|k: int| 0 <= k < seen.len() && asks(#[trigger] seen[k]);
        assert(seen[k].api_key != wire::API_VERSIONS);
    } else {
        assert forall|i: int| 0 <= i < seen.len() implies (#[trigger] seen[i]).api_key
            == wire::API_VERSIONS by {
            assert(!asks(seen[i]));
        }
    }
}

proof fn lemma_offered(schema: HarnessSchema, api_key: i16, version: i16)
    requires
        api_key != wire::API_VERSIONS,
    ensures
        offers(schema, api_key, version) <==> (client_checks::range_of(
            client::spec_advertised(schema),
            api_key,
        ) matches Some((min, max)) && min <= version <= max),
{
    let rows = client::spec_advertised(schema);
    reveal_with_fuel(crate::checks::ctx::spec_advertised, 9);
    assert(rows.skip(1)[0] == rows[1]);
    assert(rows.skip(1).skip(1)[0] == rows[2]);
    assert(rows.skip(1).skip(1).skip(1)[0] == rows[3]);
    assert(rows.skip(1).skip(1).skip(1).skip(1)[0] == rows[4]);
    assert(rows.skip(1).skip(1).skip(1).skip(1).skip(1)[0] == rows[5]);
    assert(rows.skip(1).skip(1).skip(1).skip(1).skip(1).skip(1)[0] == rows[6]);
    assert(rows.skip(1).skip(1).skip(1).skip(1).skip(1).skip(1).skip(1)[0] == rows[7]);
}

/// Bodies: a client passes where every body that is checked decoded, and fails
/// where one did not. One that is exempt is not held against it.
pub proof fn law_bodies_are_judged(s: Session, schema: HarnessSchema)
    ensures
        ({
            let verdict = ClientCheck::BodyDecodes.spec_verdict(s, schema);
            let seen = s.observations@;
            &&& verdict is Skipped <==> forall|i: int|
                0 <= i < seen.len() ==> (#[trigger] seen[i]).body_exempt
            &&& verdict is Fail <==> exists|i: int|
                0 <= i < seen.len() && !(#[trigger] seen[i]).body_exempt && seen[i].body_error
                    is Some
            &&& verdict is Pass || verdict is Skipped || verdict is Fail
        }),
{
    let seen = s.observations@;
    let notes = client_checks::body_notes();
    let checked = client_checks::has_checked_body();
    client_checks::lemma_gathered_empty(seen, notes);
    assert forall|i: int| 0 <= i < seen.len() implies (notes(#[trigger] seen[i]).len() == 0 <==> (
    seen[i].body_exempt || seen[i].body_error is None)) by {}
    if client_checks::applies(seen, checked) {
        let k = choose|k: int| 0 <= k < seen.len() && checked(#[trigger] seen[k]);
        assert(!seen[k].body_exempt);
    } else {
        assert forall|i: int| 0 <= i < seen.len() implies (#[trigger] seen[i]).body_exempt by {
            assert(!checked(seen[i]));
        }
    }
}

/// Whether a request addresses a partition of the routing topic at some place
/// among its routes.
pub open spec fn sends(o: Observation, k: int, partition: i32) -> bool {
    &&& 0 <= k < o.routes@.len()
    &&& o.routes@[k].topic@ == "odradek-routing"@
    &&& o.routes@[k].partition == partition
}

/// Whether a broker is given a partition by one of the moves.
pub open spec fn is_given(events: Seq<FaultEvent>, partition: i32, node_id: i32) -> bool {
    exists|n: int|
        0 <= n < events.len() && #[trigger] events[n] == (FaultEvent { partition, to_node: node_id })
}

/// Routing: a client that addressed the routing topic passes where each
/// partition went only to the broker of its own number or to one that it was
/// moved to, and fails where one went anywhere else.
pub proof fn law_routes_are_judged(s: Session, schema: HarnessSchema)
    ensures
        ({
            let verdict = ClientCheck::RoutesToPartitionLeader.spec_verdict(s, schema);
            let seen = s.observations@;
            &&& verdict is Skipped <==> forall|i: int, k: int, p: i32|
                0 <= i < seen.len() ==> !#[trigger] sends(seen[i], k, p)
            &&& verdict is Fail <==> exists|i: int, k: int, p: i32|
                0 <= i < seen.len() && #[trigger] sends(seen[i], k, p) && p != seen[i].node_id
                    && !is_given(s.events@, p, seen[i].node_id)
            &&& verdict is Pass || verdict is Skipped || verdict is Fail
        }),
{
    let seen = s.observations@;
    let events = s.events@;
    let notes = client_checks::route_notes(events);
    let routed = client_checks::is_routed();
    client_checks::lemma_gathered_empty(seen, notes);
    assert forall|i: int| 0 <= i < seen.len() implies (notes(#[trigger] seen[i]).len() > 0 <==> (
    exists|k: int, p: i32| #[trigger]
        sends(seen[i], k, p) && p != seen[i].node_id && !is_given(events, p, seen[i].node_id))) by {
        lemma_misroutes(seen[i], seen[i].routes@.len() as int, events);
        let all = client::route_views(seen[i].routes@);
        assert(all.take(all.len() as int) =~= all);
    }
    assert forall|i: int| 0 <= i < seen.len() implies (routed(#[trigger] seen[i]) <==> (
    exists|k: int, p: i32| #[trigger] sends(seen[i], k, p))) by {
        let o = seen[i];
        let all = client::route_views(o.routes@);
        if routed(o) {
            let k = choose|k: int|
                0 <= k < all.len() && (#[trigger] all[k]).0 == client::spec_routing_topic();
            assert(sends(o, k, o.routes@[k].partition));
        }
        if exists|k: int, p: i32| #[trigger] sends(o, k, p) {
            let (k, p) = choose|k: int, p: i32| #[trigger] sends(o, k, p);
            assert(all[k].0 == client::spec_routing_topic());
        }
    }
    if client_checks::applies(seen, routed) {
        let i = choose|i: int| 0 <= i < seen.len() && routed(#[trigger] seen[i]);
        let (k, p) = choose|k: int, p: i32| #[trigger] sends(seen[i], k, p);
        assert(sends(seen[i], k, p));
    } else {
        assert forall|i: int, k: int, p: i32| 0 <= i < seen.len() implies !#[trigger] sends(
            seen[i],
            k,
            p,
        ) by {
            assert(!routed(seen[i]));
        }
    }
    if client_checks::gathered(seen, notes).len() > 0 {
        let i = choose|i: int| 0 <= i < seen.len() && notes(#[trigger] seen[i]).len() > 0;
        let (k, p) = choose|k: int, p: i32| #[trigger]
            sends(seen[i], k, p) && p != seen[i].node_id && !is_given(events, p, seen[i].node_id);
        assert(sends(seen[i], k, p));
        assert(routed(seen[i]));
    }
}

proof fn lemma_misroutes(o: Observation, n: int, events: Seq<FaultEvent>)
    requires
        0 <= n <= o.routes@.len(),
    ensures
        client_checks::misroutes(o, client::route_views(o.routes@).take(n), events).len() > 0 <==> (
        exists|k: int, p: i32| #[trigger]
            sends(o, k, p) && k < n && p != o.node_id && !is_given(events, p, o.node_id)),
    decreases n,
{
    let all = client::route_views(o.routes@);
    if n > 0 {
        lemma_misroutes(o, n - 1, events);
        assert(all.take(n).drop_last() =~= all.take(n - 1));
        let (topic, partition) = all[n - 1];
        lemma_given(events, partition, o.node_id);
        if client_checks::misroutes(o, all.take(n - 1), events).len() > 0 {
            let (k, p) = choose|k: int, p: i32| #[trigger]
                sends(o, k, p) && k < n - 1 && p != o.node_id && !is_given(events, p, o.node_id);
            assert(sends(o, k, p));
        } else if client_checks::misroutes(o, all.take(n), events).len() > 0 {
            assert(sends(o, n - 1, partition));
        }
    }
}

proof fn lemma_given(events: Seq<FaultEvent>, partition: i32, node_id: i32)
    ensures
        client_checks::ever_led(events, partition, node_id) <==> node_id == partition || is_given(
            events,
            partition,
            node_id,
        ),
{
    if is_given(events, partition, node_id) {
        let n = choose|n: int|
            0 <= n < events.len() && #[trigger] events[n] == (FaultEvent {
                partition,
                to_node: node_id,
            });
        assert(events[n].partition == partition);
    }
    if client_checks::ever_led(events, partition, node_id) && node_id != partition {
        let n = choose|n: int|
            0 <= n < events.len() && (#[trigger] events[n]).partition == partition
                && events[n].to_node == node_id;
        assert(events[n] == (FaultEvent { partition, to_node: node_id }));
    }
}

/// Recovery: where the leader move is armed and fired, a client passes exactly
/// if for every move some request arrived at the new leader and addressed the
/// very partition that moved to it. What it sends there for other partitions
/// counts for nothing, and where one moved partition never arrives it fails.
pub proof fn law_recovery_is_judged(s: Session, schema: HarnessSchema)
    ensures
        ({
            let verdict = ClientCheck::RecoversFromLeaderChange.spec_verdict(s, schema);
            let seen = s.observations@;
            let moved = s.events@;
            let armed = s.fault == Some(HarnessFault::LeaderMove) && moved.len() > 0;
            &&& verdict is Skipped <==> !armed
            &&& verdict is Pass <==> armed && forall|n: int|
                0 <= n < moved.len() ==> arrived(seen, #[trigger] moved[n])
            &&& verdict is Fail <==> armed && exists|n: int|
                0 <= n < moved.len() && !arrived(seen, #[trigger] moved[n])
        }),
{
    let moved = s.events@;
    lemma_unrecovered(s.observations@, moved, moved.len() as int);
    assert(moved.take(moved.len() as int) =~= moved);
}

/// Whether a request for a moved partition arrived at its new leader.
pub open spec fn arrived(seen: Seq<Observation>, event: FaultEvent) -> bool {
    exists|i: int, k: int|
        0 <= i < seen.len() && seen[i].node_id == event.to_node && #[trigger] sends(
            seen[i],
            k,
            event.partition,
        )
}

proof fn lemma_unrecovered(seen: Seq<Observation>, moved: Seq<FaultEvent>, n: int)
    requires
        0 <= n <= moved.len(),
    ensures
        client_checks::unrecovered(seen, moved.take(n)).len() > 0 <==> exists|m: int|
            0 <= m < n && !arrived(seen, #[trigger] moved[m]),
    decreases n,
{
    if n > 0 {
        lemma_unrecovered(seen, moved, n - 1);
        assert(moved.take(n).drop_last() =~= moved.take(n - 1));
        let event = moved[n - 1];
        if client_checks::redelivered(seen, event) {
            let i = choose|i: int|
                0 <= i < seen.len() && client_checks::reached(#[trigger] seen[i], event);
            let k = choose|k: int|
                0 <= k < seen[i].routes@.len() && (#[trigger] seen[i].routes@[k]).topic@
                    == client::spec_routing_topic() && seen[i].routes@[k].partition
                    == event.partition;
            assert(sends(seen[i], k, event.partition));
        }
        if arrived(seen, event) {
            let (i, k) = choose|i: int, k: int|
                0 <= i < seen.len() && seen[i].node_id == event.to_node && #[trigger] sends(
                    seen[i],
                    k,
                    event.partition,
                );
            assert(seen[i].routes@[k].topic@ == client::spec_routing_topic());
            assert(client_checks::reached(seen[i], event));
        }
    }
}

/// Whether a request came on a connection after another of it.
pub open spec fn follows_on(o: Observation, conn_id: usize, index: usize) -> bool {
    o.conn_id == conn_id && o.index > index
}

proof fn lemma_first_after(
    seen: Seq<Observation>,
    conn_id: usize,
    index: usize,
    what: spec_fn(Observation) -> bool,
)
    ensures
        match client_checks::first_after(seen, conn_id, index, what) {
            Some(o) => seen.contains(o) && follows_on(o, conn_id, index) && what(o),
            None => forall|i: int|
                0 <= i < seen.len() && #[trigger] follows_on(seen[i], conn_id, index) ==> !what(
                    seen[i],
                ),
        },
    decreases seen.len(),
{
    if seen.len() > 0 {
        let rest = seen.skip(1);
        lemma_first_after(rest, conn_id, index, what);
        if !(follows_on(seen[0], conn_id, index) && what(seen[0])) {
            match client_checks::first_after(rest, conn_id, index, what) {
                Some(o) => {
                    let k = choose|k: int| 0 <= k < rest.len() && rest[k] == o;
                    assert(seen[k + 1] == o);
                },
                None => {
                    assert forall|i: int|
                        0 <= i < seen.len() && #[trigger] follows_on(
                            seen[i],
                            conn_id,
                            index,
                        ) implies !what(seen[i]) by {
                        if i > 0 {
                            assert(rest[i - 1] == seen[i]);
                            assert(follows_on(rest[i - 1], conn_id, index));
                        }
                    }
                },
            }
        }
    }
}

/// Whether a request is of an api that moves data, not of SASL or of the
/// negotiation of versions.
pub open spec fn moves_data(o: Observation) -> bool {
    o.api_key != wire::SASL_HANDSHAKE && o.api_key != wire::SASL_AUTHENTICATE && o.api_key
        != wire::API_VERSIONS
}

/// A refused token, heeded: a client passes where nothing that moves data
/// follows any refusal on its connection, and fails where something does.
pub proof fn law_refusals_are_heeded(s: Session, schema: HarnessSchema)
    ensures
        ({
            let verdict = ClientCheck::HeedsSaslRejection.spec_verdict(s, schema);
            let seen = s.observations@;
            let refused = s.sasl_rejections@;
            &&& verdict is Skipped <==> refused.len() == 0
            &&& verdict is Fail <==> exists|n: int, i: int|
                0 <= n < refused.len() && 0 <= i < seen.len() && #[trigger] follows_on(
                    seen[i],
                    refused[n].0,
                    refused[n].1,
                ) && moves_data(seen[i])
            &&& verdict is Pass || verdict is Skipped || verdict is Fail
        }),
{
    lemma_unheeded(s.observations@, s.sasl_rejections@, 0);
}

proof fn lemma_unheeded(seen: Seq<Observation>, refused: Seq<(usize, usize)>, n: int)
    requires
        0 <= n <= refused.len(),
    ensures
        client_checks::unheeded(seen, refused, n) is Fail <==> exists|m: int, i: int|
            n <= m < refused.len() && 0 <= i < seen.len() && #[trigger] follows_on(
                seen[i],
                refused[m].0,
                refused[m].1,
            ) && moves_data(seen[i]),
        client_checks::unheeded(seen, refused, n) is Fail || client_checks::unheeded(
            seen,
            refused,
            n,
        ) is Pass,
    decreases refused.len() - n,
{
    if n < refused.len() {
        let (conn_id, index) = refused[n];
        lemma_first_after(seen, conn_id, index, client_checks::is_data());
        lemma_unheeded(seen, refused, n + 1);
        match client_checks::first_after(seen, conn_id, index, client_checks::is_data()) {
            Some(o) => {
                let i = choose|i: int| 0 <= i < seen.len() && seen[i] == o;
                assert(follows_on(seen[i], refused[n].0, refused[n].1));
            },
            None => {},
        }
    }
}

/// A refused token, answered: a client passes where a further token follows
/// every refusal on its connection, and fails where none does.
pub proof fn law_refusals_are_answered(s: Session, schema: HarnessSchema)
    ensures
        ({
            let verdict = ClientCheck::AcknowledgesSaslRejection.spec_verdict(s, schema);
            let seen = s.observations@;
            let refused = s.sasl_rejections@;
            &&& verdict is Skipped <==> refused.len() == 0
            &&& verdict is Pass <==> refused.len() > 0 && forall|n: int|
                0 <= n < refused.len() ==> is_answered(seen, #[trigger] refused[n])
            &&& verdict is Pass || verdict is Skipped || verdict is Fail
        }),
{
    lemma_unanswered(s.observations@, s.sasl_rejections@, 0);
}

/// Whether a further token follows a refusal.
pub open spec fn is_answered(seen: Seq<Observation>, refused: (usize, usize)) -> bool {
    exists|i: int|
        0 <= i < seen.len() && #[trigger] follows_on(seen[i], refused.0, refused.1)
            && seen[i].api_key == wire::SASL_AUTHENTICATE
}

proof fn lemma_unanswered(seen: Seq<Observation>, refused: Seq<(usize, usize)>, n: int)
    requires
        0 <= n <= refused.len(),
    ensures
        client_checks::unanswered(seen, refused, n) is Pass <==> forall|m: int|
            n <= m < refused.len() ==> is_answered(seen, #[trigger] refused[m]),
        client_checks::unanswered(seen, refused, n) is Fail || client_checks::unanswered(
            seen,
            refused,
            n,
        ) is Pass,
    decreases refused.len() - n,
{
    if n < refused.len() {
        let (conn_id, index) = refused[n];
        lemma_first_after(seen, conn_id, index, client_checks::is_token());
        lemma_unanswered(seen, refused, n + 1);
        match client_checks::first_after(seen, conn_id, index, client_checks::is_token()) {
            Some(o) => {
                let i = choose|i: int| 0 <= i < seen.len() && seen[i] == o;
                assert(follows_on(seen[i], refused[n].0, refused[n].1));
                assert(is_answered(seen, refused[n]));
            },
            None => {
                assert(!is_answered(seen, refused[n]));
            },
        }
    }
}

/// Whether a client spoke again on the connection of a throttled answer.
pub open spec fn spoke_again(seen: Seq<Observation>, throttle: (usize, usize, u64)) -> bool {
    exists|i: int|
        0 <= i < seen.len() && #[trigger] follows_on(seen[i], throttle.0, throttle.1)
}

/// Throttling: the first throttled answer after which the client spoke again on
/// that connection decides. It passes where nothing followed on that connection
/// from 200 to 350 milliseconds after the answer went out, out of a pause of
/// 400, and fails where something did. Where no throttled connection was spoken
/// on again there is nothing to judge.
pub proof fn law_pauses_are_judged(s: Session, schema: HarnessSchema, n: int)
    requires
        0 <= n < s.throttles@.len(),
        forall|m: int| 0 <= m < n ==> !spoke_again(s.observations@, #[trigger] s.throttles@[m]),
        spoke_again(s.observations@, s.throttles@[n]),
        s.throttles@[n].2 + 400 <= u64::MAX,
    ensures
        ({
            let verdict = ClientCheck::HonoursThrottleTime.spec_verdict(s, schema);
            let seen = s.observations@;
            let (conn_id, index, sent_at) = s.throttles@[n];
            &&& verdict is Fail <==> exists|i: int|
                0 <= i < seen.len() && #[trigger] follows_on(seen[i], conn_id, index)
                    && sent_at + 200 <= seen[i].at_ms < sent_at + 350
            &&& verdict is Fail || verdict is Pass
        }),
{
    let seen = s.observations@;
    let (conn_id, index, sent_at) = s.throttles@[n];
    lemma_observed(seen, s.throttles@, 0, n);
    let from = sent_at.wrapping_add(200);
    let until = sent_at.wrapping_add(350);
    lemma_first_after(seen, conn_id, index, client_checks::within(from, until));
    match client_checks::first_after(seen, conn_id, index, client_checks::within(from, until)) {
        Some(o) => {
            let i = choose|i: int| 0 <= i < seen.len() && seen[i] == o;
            assert(follows_on(seen[i], conn_id, index));
        },
        None => {},
    }
}

/// Where the client spoke on no throttled connection again, there was no pause
/// to see.
pub proof fn law_unseen_pauses_are_skipped(s: Session, schema: HarnessSchema)
    ensures
        ClientCheck::HonoursThrottleTime.spec_verdict(s, schema) is Skipped <==> forall|n: int|
            0 <= n < s.throttles@.len() ==> !spoke_again(
                s.observations@,
                #[trigger] s.throttles@[n],
            ),
{
    lemma_unobserved(s.observations@, s.throttles@, 0);
}

proof fn lemma_spoke(seen: Seq<Observation>, throttle: (usize, usize, u64))
    ensures
        client_checks::first_after(
            seen,
            throttle.0,
            throttle.1,
            client_checks::any_request(),
        ) is Some <==> spoke_again(seen, throttle),
{
    let any = client_checks::any_request();
    lemma_first_after(seen, throttle.0, throttle.1, any);
    match client_checks::first_after(seen, throttle.0, throttle.1, any) {
        Some(o) => {
            let i = choose|i: int| 0 <= i < seen.len() && seen[i] == o;
            assert(follows_on(seen[i], throttle.0, throttle.1));
        },
        None => {
            assert forall|i: int| 0 <= i < seen.len() implies !#[trigger] follows_on(
                seen[i],
                throttle.0,
                throttle.1,
            ) by {
                assert(any(seen[i]));
            }
        },
    }
}

proof fn lemma_observed(
    seen: Seq<Observation>,
    throttles: Seq<(usize, usize, u64)>,
    from: int,
    n: int,
)
    requires
        0 <= from <= n < throttles.len(),
        forall|m: int| from <= m < n ==> !spoke_again(seen, #[trigger] throttles[m]),
        spoke_again(seen, throttles[n]),
    ensures
        client_checks::observed_throttle(seen, throttles, from) == Some(throttles[n]),
    decreases n - from,
{
    lemma_spoke(seen, throttles[from]);
    if from < n {
        lemma_observed(seen, throttles, from + 1, n);
    }
}

proof fn lemma_unobserved(
    seen: Seq<Observation>,
    throttles: Seq<(usize, usize, u64)>,
    from: int,
)
    requires
        0 <= from <= throttles.len(),
    ensures
        client_checks::observed_throttle(seen, throttles, from) is None <==> forall|m: int|
            from <= m < throttles.len() ==> !spoke_again(seen, #[trigger] throttles[m]),
    decreases throttles.len() - from,
{
    if from < throttles.len() {
        lemma_spoke(seen, throttles[from]);
        lemma_unobserved(seen, throttles, from + 1);
    }
}

/// Unknown fields: a client passes where it sent anything after the first
/// answer with a field that nothing defines, on that connection or on another,
/// and fails where it sent nothing.
pub proof fn law_unknown_fields_are_judged(s: Session, schema: HarnessSchema)
    ensures
        ({
            let verdict = ClientCheck::ToleratesUnknownTaggedFields.spec_verdict(s, schema);
            let seen = s.observations@;
            let tagged = s.tagged@;
            &&& verdict is Skipped <==> tagged.len() == 0
            &&& verdict is Pass <==> tagged.len() > 0 && exists|i: int|
                0 <= i < seen.len() && ((#[trigger] seen[i]).conn_id != tagged[0].0
                    || seen[i].index > tagged[0].1)
            &&& verdict is Pass || verdict is Skipped || verdict is Fail
        }),
{
}

} // verus!

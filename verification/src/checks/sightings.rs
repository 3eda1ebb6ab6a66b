//! What the harness makes of a client's requests, and what it answers them.

use vstd::prelude::*;

use crate::checks::client;
use crate::checks::client::{
    Arrival, AskedTopic, HarnessFault, HarnessSchema, Reading, RouteView, SeenBody,
};
use crate::checks::harness;
use crate::checks::harness::{BodyView, Entry, HarnessView, TopicReplyView};
use crate::subject::replies::ProducedPartition;
use crate::wire;
use crate::wire::Versions;

verus! {

/// A frame that can hold a header states its api and its version in its first
/// four bytes, each as a signed number with the high byte first.
pub proof fn law_frames_state_their_api(frame: Seq<u8>)
    ensures
        client::spec_frame_api(frame) is None <==> frame.len() < 8,
        client::spec_frame_api(frame) matches Some((key, version)) ==> {
            &&& key == 256 * frame[0] + frame[1] - (if frame[0] >= 128 {
                65_536int
            } else {
                0
            })
            &&& version == 256 * frame[2] + frame[3] - (if frame[2] >= 128 {
                65_536int
            } else {
                0
            })
        },
{
}

/// A header is looked up under its own version, but for an ApiVersions request
/// above the newest, which is read at the newest.
pub proof fn law_headers_are_looked_up(api_key: i16, api_version: i16, newest: i16)
    ensures
        ({
            let used = client::spec_header_lookup(api_key, api_version, newest);
            &&& api_key != 18 ==> used == api_version
            &&& api_key == 18 ==> used <= newest && used <= api_version && (used == newest || used
                == api_version)
        }),
{
}

/// The bodies that are read, told by the numbers of their apis.
pub proof fn law_bodies_that_are_read(api_key: i16, api_version: i16, newest: i16)
    ensures
        client::spec_reads_body(api_key, api_version, newest) <==> (seq![
            0i16,
            1i16,
            2i16,
            3i16,
            17i16,
            22i16,
            36i16,
        ].contains(api_key) || (api_key == 18 && api_version <= newest)),
{
    let read = seq![0i16, 1i16, 2i16, 3i16, 17i16, 22i16, 36i16];
    assert(read[0] == 0 && read[1] == 1 && read[2] == 2 && read[3] == 3);
    assert(read[4] == 17 && read[5] == 22 && read[6] == 36);
}

/// Whether a request addresses a partition of a topic: by the topic's name, or
/// by the routing topic's id where it has none.
pub open spec fn addresses(topic: AskedTopic, name: Seq<char>, partition: i32) -> bool {
    &&& topic.partitions@.contains(partition)
    &&& if topic.name@.len() > 0 || topic.topic_id is None {
        name == topic.name@
    } else if topic.topic_id->Some_0@ == client::ROUTING_TOPIC_ID@ {
        name == client::spec_routing_topic()
    } else {
        name == client::spec_resolve_topic(Seq::empty(), topic.topic_id->Some_0)
    }
}

/// The routes of a request are those that its topics address, and no others.
pub proof fn law_routes_are_those_addressed(topics: Seq<AskedTopic>, name: Seq<char>, partition: i32)
    ensures
        client::body_routes(topics).contains((name, partition)) <==> exists|t: int|
            0 <= t < topics.len() && addresses(#[trigger] topics[t], name, partition),
    decreases topics.len(),
{
    if topics.len() > 0 {
        let rest = topics.drop_last();
        let last = topics[topics.len() - 1];
        let route = (name, partition);
        let before = client::body_routes(rest);
        let these = client::topic_routes(last);
        let all = client::body_routes(topics);
        law_routes_are_those_addressed(rest, name, partition);
        assert(last.name@.len() == 0 ==> last.name@ =~= Seq::empty());
        assert(these.contains(route) <==> addresses(last, name, partition)) by {
            if these.contains(route) {
                let k = choose|k: int| 0 <= k < these.len() && these[k] == route;
                assert(last.partitions@[k] == partition);
            }
            if addresses(last, name, partition) {
                let k = choose|k: int|
                    0 <= k < last.partitions@.len() && last.partitions@[k] == partition;
                assert(these[k] == route);
            }
        }
        if all.contains(route) {
            let k = choose|k: int| 0 <= k < all.len() && all[k] == route;
            if k < before.len() {
                assert(before[k] == route);
                let t = choose|t: int|
                    0 <= t < rest.len() && addresses(#[trigger] rest[t], name, partition);
                assert(topics[t] == rest[t]);
            } else {
                assert(these[k - before.len()] == route);
                assert(addresses(topics[topics.len() - 1], name, partition));
            }
        }
        if exists|t: int|
            0 <= t < topics.len() && addresses(#[trigger] topics[t], name, partition) {
            let t = choose|t: int|
                0 <= t < topics.len() && addresses(#[trigger] topics[t], name, partition);
            if t < rest.len() {
                assert(rest[t] == topics[t]);
                let k = choose|k: int| 0 <= k < before.len() && before[k] == route;
                assert(all[k] == route);
            } else {
                let k = choose|k: int| 0 <= k < these.len() && these[k] == route;
                assert(all[before.len() + k] == route);
            }
        }
    } else {
        assert(!client::body_routes(topics).contains((name, partition)));
    }
}

/// What is kept of a request: where and when it arrived and what it asked for,
/// whatever was made of it; an error of its header exactly if it did not decode;
/// an error of its body exactly if that was read and did not decode, or left
/// bytes over; and what the body addressed only where there was none.
pub proof fn law_sightings_keep_what_was_seen(
    at: Arrival,
    api_key: i16,
    api_version: i16,
    reading: Reading,
)
    ensures
        ({
            let seen = client::spec_observe(at, api_key, api_version, reading);
            &&& seen.node_id == at.node_id && seen.conn_id == at.conn_id && seen.index == at.index
                && seen.at_ms == at.at_ms
            &&& seen.api_key == api_key && seen.api_version == api_version
            &&& seen.header_error is Some <==> reading is BadHeader
            &&& seen.body_exempt <==> !(reading matches Reading::Good { body: Some(_), .. })
            &&& seen.body_error is Some <==> (reading matches Reading::Good { body: Some(body), .. }
                && (body.decoded is Err || body.trailing > 0))
            &&& reading matches Reading::Good { header, .. } ==> seen.header == Some(header)
            &&& seen.routes == (match reading {
                Reading::Good { body: Some(body), .. } => match body.decoded {
                    Ok(SeenBody::Topics(topics)) => if body.trailing == 0 {
                        client::body_routes(topics@)
                    } else {
                        Seq::empty()
                    },
                    _ => Seq::empty(),
                },
                _ => Seq::empty(),
            })
            &&& seen.sasl_mechanism is Some <==> (reading matches Reading::Good {
                body: Some(body),
                ..
            } && (body.decoded matches Ok(SeenBody::Mechanism(_)) && body.trailing == 0))
        }),
{
}

/// The version that an answer is written at: the one asked for where it is
/// spoken, and otherwise the nearest.
pub proof fn law_answers_keep_to_the_versions(version: i16, range: Versions)
    requires
        range.min <= range.max,
    ensures
        ({
            let used = harness::spec_clamp(version, range);
            &&& range.min <= used <= range.max
            &&& range.min <= version <= range.max ==> used == version
            &&& version < range.min ==> used == range.min
            &&& version > range.max ==> used == range.max
        }),
{
}

/// The eight apis that the harness advertises are answered, and no others; one
/// that is not leaves it as it was.
pub proof fn law_other_requests_are_not_answered(
    state: HarnessView,
    schema: HarnessSchema,
    api_key: i16,
    api_version: i16,
    conn_id: usize,
    index: usize,
    routes: Seq<RouteView>,
    mechanism: Option<Seq<char>>,
    node_id: i32,
    now_ms: u64,
)
    ensures
        ({
            let (after, reply) = harness::spec_respond(
                state,
                schema,
                api_key,
                api_version,
                conn_id,
                index,
                routes,
                mechanism,
                node_id,
                now_ms,
            );
            let known = api_key == 0 || api_key == 1 || api_key == 2 || api_key == 3 || api_key
                == 17 || api_key == 18 || api_key == 22 || api_key == 36;
            &&& reply is Some <==> known
            &&& !known ==> after == state
        }),
{
}

/// A mechanism is agreed on exactly if it is the one on offer, and from then on
/// the connection counts as one that has agreed.
pub proof fn law_handshakes_agree_on_the_offer(
    state: HarnessView,
    schema: HarnessSchema,
    api_version: i16,
    conn_id: usize,
    other: usize,
    index: usize,
    routes: Seq<RouteView>,
    mechanism: Option<Seq<char>>,
    node_id: i32,
    now_ms: u64,
)
    ensures
        ({
            let (after, reply) = harness::spec_respond(
                state,
                schema,
                17,
                api_version,
                conn_id,
                index,
                routes,
                mechanism,
                node_id,
                now_ms,
            );
            let offered = client::spec_offered_mechanism();
            &&& reply matches Some(reply) && (reply.body matches BodyView::SaslHandshake {
                error,
                mechanisms,
            } && (error == 0 <==> mechanism == Some(offered)) && (error == 0 || error == 33)
                && mechanisms == seq![offered])
            &&& after.negotiated.contains(other) <==> state.negotiated.contains(other) || (other
                == conn_id && mechanism == Some(offered))
        }),
{
}

/// A token is refused exactly where that is armed, the connection has agreed on
/// a mechanism, and none was refused there before; the refusal is written down,
/// and the next token on the connection is taken.
pub proof fn law_tokens_are_refused_once(
    state: HarnessView,
    schema: HarnessSchema,
    api_version: i16,
    conn_id: usize,
    index: usize,
    routes: Seq<RouteView>,
    mechanism: Option<Seq<char>>,
    node_id: i32,
    now_ms: u64,
)
    ensures
        ({
            let (after, reply) = harness::spec_respond(
                state,
                schema,
                36,
                api_version,
                conn_id,
                index,
                routes,
                mechanism,
                node_id,
                now_ms,
            );
            let (later, again) = harness::spec_respond(
                after,
                schema,
                36,
                api_version,
                conn_id,
                index,
                routes,
                mechanism,
                node_id,
                now_ms,
            );
            let refused = state.fault == Some(HarnessFault::RejectSaslToken)
                && state.negotiated.contains(conn_id) && forall|i: int|
                0 <= i < state.sasl_rejections.len() ==> (#[trigger] state.sasl_rejections[i]).0
                    != conn_id;
            &&& reply matches Some(reply) && (reply.body matches BodyView::SaslAuthenticate {
                error,
                auth,
            } && error == 0 && auth == (if refused {
                harness::spec_refusal()
            } else {
                Seq::empty()
            }))
            &&& after.sasl_rejections == (if refused {
                state.sasl_rejections.push((conn_id, index))
            } else {
                state.sasl_rejections
            })
            &&& refused ==> later == after && (again matches Some(again) && (
            again.body matches BodyView::SaslAuthenticate { auth, .. } && auth.len() == 0))
        }),
{
    let refused = state.fault == Some(HarnessFault::RejectSaslToken) && state.negotiated.contains(
        conn_id,
    ) && forall|i: int|
        0 <= i < state.sasl_rejections.len() ==> (#[trigger] state.sasl_rejections[i]).0 != conn_id;
    if refused {
        let pushed = state.sasl_rejections.push((conn_id, index));
        assert(pushed[pushed.len() - 1].0 == conn_id);
        assert(harness::was_refused(pushed, conn_id));
    }
}

/// Metadata asks a client to pause for 400 milliseconds exactly where that is
/// armed and the version can say so, and writes down when it did. The leaders
/// and the brokers that it names are those of the cluster.
pub proof fn law_metadata_tells_what_it_was_armed_with(
    state: HarnessView,
    schema: HarnessSchema,
    api_version: i16,
    conn_id: usize,
    index: usize,
    routes: Seq<RouteView>,
    mechanism: Option<Seq<char>>,
    node_id: i32,
    now_ms: u64,
    i: int,
)
    requires
        schema.metadata.min <= schema.metadata.max,
    ensures
        ({
            let (after, reply) = harness::spec_respond(
                state,
                schema,
                3,
                api_version,
                conn_id,
                index,
                routes,
                mechanism,
                node_id,
                now_ms,
            );
            let version = if api_version < schema.metadata.min {
                schema.metadata.min
            } else if api_version > schema.metadata.max {
                schema.metadata.max
            } else {
                api_version
            };
            let throttled = state.fault == Some(HarnessFault::Throttle) && version >= 3;
            let tagged = state.fault == Some(HarnessFault::UnknownTaggedField) && version >= 9;
            &&& reply matches Some(reply) && reply.version == version && (
            reply.body matches BodyView::Metadata(answer) && {
                &&& answer.throttle_time_ms == (if throttled {
                    400i32
                } else {
                    0i32
                })
                &&& answer.tagged is Some <==> tagged
                &&& answer.brokers.len() == state.ports.len()
                &&& 0 <= i < state.ports.len() && i < 0x7fff_ffff ==> answer.brokers[i].node_id == i
                    && answer.brokers[i].port == state.ports[i]
                &&& answer.partitions.len() == state.leaders.len()
                &&& 0 <= i < state.leaders.len() && i < 0x7fff_ffff
                    ==> answer.partitions[i].partition_index == i && answer.partitions[i].leader_id
                    == state.leaders[i]
            })
            &&& after.throttles == (if throttled {
                state.throttles.push((conn_id, index, now_ms))
            } else {
                state.throttles
            })
            &&& after.tagged == (if tagged {
                state.tagged.push((conn_id, index))
            } else {
                state.tagged
            })
            &&& after.leaders == state.leaders && after.events == state.events
        }),
{
}

/// Whether an answer has an entry for a topic.
pub open spec fn answers<R>(
    replies: Seq<TopicReplyView<R>>,
    topic: Seq<char>,
    entry: R,
) -> bool {
    exists|i: int|
        0 <= i < replies.len() && (#[trigger] replies[i]).topic == topic
            && replies[i].partitions.contains(entry)
}

proof fn lemma_place<R>(replies: Seq<TopicReplyView<R>>, topic: Seq<char>, i: int)
    requires
        0 <= i,
    ensures
        harness::place_of(replies, topic, i) matches Some(k) ==> i <= k < replies.len()
            && replies[k].topic == topic,
    decreases replies.len() - i,
{
    if i < replies.len() && replies[i].topic != topic {
        lemma_place(replies, topic, i + 1);
    }
}

proof fn lemma_with_partition<R>(
    replies: Seq<TopicReplyView<R>>,
    topic: Seq<char>,
    id: wire::TopicId,
    entry: R,
    other: Seq<char>,
    kept: R,
)
    ensures
        answers(harness::with_partition(replies, topic, id, entry), topic, entry),
        answers(replies, other, kept) ==> answers(
            harness::with_partition(replies, topic, id, entry),
            other,
            kept,
        ),
{
    let after = harness::with_partition(replies, topic, id, entry);
    lemma_place(replies, topic, 0);
    match harness::place_of(replies, topic, 0) {
        Some(k) => {
            let longer = replies[k].partitions.push(entry);
            assert(longer[longer.len() - 1] == entry);
            assert(after[k].topic == topic && after[k].partitions.contains(entry));
            if answers(replies, other, kept) {
                let i = choose|i: int|
                    0 <= i < replies.len() && (#[trigger] replies[i]).topic == other
                        && replies[i].partitions.contains(kept);
                if i == k {
                    let p = choose|p: int|
                        0 <= p < replies[k].partitions.len() && replies[k].partitions[p] == kept;
                    assert(longer[p] == kept);
                }
                assert(after[i].topic == other && after[i].partitions.contains(kept));
            }
        },
        None => {
            let last = after[after.len() - 1];
            assert(last.partitions[0] == entry);
            assert(last.topic == topic && last.partitions.contains(entry));
            if answers(replies, other, kept) {
                let i = choose|i: int|
                    0 <= i < replies.len() && (#[trigger] replies[i]).topic == other
                        && replies[i].partitions.contains(kept);
                assert(after[i] == replies[i]);
            }
        },
    }
}

/// A fetch is answered for every route it names: without an error where the
/// topic is the routing topic and the broker leads the partition, and with one
/// that says which of the two does not hold otherwise.
pub proof fn law_every_fetched_route_is_answered<R: Entry>(
    state: HarnessView,
    routes: Seq<RouteView>,
    node_id: i32,
    k: int,
)
    requires
        0 <= k < routes.len(),
    ensures
        ({
            let (topic, partition) = routes[k];
            let code: i16 = if topic != client::spec_routing_topic() || !(0 <= partition
                < state.leaders.len()) {
                3
            } else if state.leaders[partition as int] == node_id {
                0
            } else {
                6
            };
            answers(
                harness::fetch_replies::<R>(state, routes, node_id),
                topic,
                R::of(partition, code),
            )
        }),
    decreases routes.len(),
{
    let rest = routes.drop_last();
    let (topic, partition) = routes.last();
    let entry = R::of(
        partition,
        if topic == client::spec_routing_topic() {
            state.fetch_error(partition, node_id)
        } else {
            wire::UNKNOWN_TOPIC_OR_PARTITION
        },
    );
    let (name, asked) = routes[k];
    let kept = R::of(
        asked,
        if name == client::spec_routing_topic() {
            state.fetch_error(asked, node_id)
        } else {
            wire::UNKNOWN_TOPIC_OR_PARTITION
        },
    );
    lemma_with_partition(
        harness::fetch_replies::<R>(state, rest, node_id),
        topic,
        harness::spec_topic_id(topic),
        entry,
        name,
        kept,
    );
    if k < rest.len() {
        assert(rest[k] == routes[k]);
        law_every_fetched_route_is_answered::<R>(state, rest, node_id, k);
    }
}

/// So is a write, each route as the cluster stood when its turn came.
pub proof fn law_every_written_route_is_answered(
    state: HarnessView,
    routes: Seq<RouteView>,
    node_id: i32,
    k: int,
)
    requires
        0 <= k < routes.len(),
    ensures
        ({
            let (topic, partition) = routes[k];
            let then = harness::produce_replies(state, routes.take(k), node_id).0;
            let code = if topic == client::spec_routing_topic() {
                then.produce_error(partition, node_id)
            } else {
                3
            };
            answers(
                harness::produce_replies(state, routes, node_id).1,
                topic,
                ProducedPartition::of(partition, code),
            )
        }),
    decreases routes.len(),
{
    let rest = routes.drop_last();
    let (topic, partition) = routes.last();
    let (then, replies) = harness::produce_replies(state, rest, node_id);
    let entry = ProducedPartition::of(
        partition,
        if topic == client::spec_routing_topic() {
            then.produce_error(partition, node_id)
        } else {
            wire::UNKNOWN_TOPIC_OR_PARTITION
        },
    );
    let (name, asked) = routes[k];
    let before = harness::produce_replies(state, routes.take(k), node_id).0;
    let kept = ProducedPartition::of(
        asked,
        if name == client::spec_routing_topic() {
            before.produce_error(asked, node_id)
        } else {
            wire::UNKNOWN_TOPIC_OR_PARTITION
        },
    );
    lemma_with_partition(replies, topic, harness::spec_topic_id(topic), entry, name, kept);
    if k < rest.len() {
        assert(rest[k] == routes[k]);
        assert(rest.take(k) =~= routes.take(k));
        law_every_written_route_is_answered(state, rest, node_id, k);
    } else {
        assert(routes.take(k) =~= rest);
    }
}

} // verus!

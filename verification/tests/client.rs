use odradek_acceptance::checks::client::{
    advertised, frame_api, header_lookup, observe, offered_mechanism, reads_body, resolve_topic,
    routing_topic, short_frame, Arrival, AskedTopic, Attempts, BodyReading, ConnTracker, FaultEvent,
    HarnessFault, HarnessSchema, Observation, ObserveConfig, Reading, Route, SeenBody, SeenHeader,
    Session, ROUTING_TOPIC_ID,
};
use odradek_acceptance::checks::client_checks::{describe, evaluate, is_sasl_api};
use odradek_acceptance::checks::collector::{no_client, Collector, Heard, Phase};
use odradek_acceptance::checks::ctx::Wait;
use odradek_acceptance::checks::harness::{Asked, Body, Harness, Reply};
use odradek_acceptance::wire::Versions;
use odradek_acceptance::Verdict;

const PRODUCE: i16 = 0;
const FETCH: i16 = 1;
const LIST_OFFSETS: i16 = 2;
const METADATA: i16 = 3;
const SASL_HANDSHAKE: i16 = 17;
const API_VERSIONS: i16 = 18;
const INIT_PRODUCER_ID: i16 = 22;
const SASL_AUTHENTICATE: i16 = 36;

fn schema() -> HarnessSchema {
    HarnessSchema {
        api_versions: Versions { min: 0, max: 4 },
        produce: Versions { min: 3, max: 13 },
        init_producer_id: Versions { min: 0, max: 5 },
        sasl_handshake: Versions { min: 0, max: 1 },
        sasl_authenticate: Versions { min: 0, max: 2 },
        fetch: Versions { min: 4, max: 17 },
        metadata: Versions { min: 0, max: 13 },
        list_offsets: Versions { min: 1, max: 10 },
    }
}

fn seen(conn_id: usize, index: usize, api_key: i16, api_version: i16) -> Observation {
    Observation {
        node_id: 0,
        conn_id,
        index,
        at_ms: 0,
        api_key,
        api_version,
        header: Some(SeenHeader { api_key, api_version, correlation_id: index as i32 }),
        header_error: None,
        body_error: None,
        body_exempt: false,
        routes: vec![],
        sasl_mechanism: None,
    }
}

fn to(node_id: i32, topic: &str, partition: i32, o: Observation) -> Observation {
    Observation { node_id, routes: vec![Route { topic: topic.to_owned(), partition }], ..o }
}

fn at(at_ms: u64, o: Observation) -> Observation {
    Observation { at_ms, ..o }
}

fn session(observations: Vec<Observation>) -> Session {
    Session {
        observations,
        fault: None,
        events: vec![],
        sasl_rejections: vec![],
        throttles: vec![],
        tagged: vec![],
    }
}

fn verdict(session: &Session, id: &str) -> Verdict {
    let report = evaluate(session, &schema(), "client test".to_owned());
    assert_eq!(report.subject, "client test");
    assert_eq!(report.outcomes.len(), 11);
    report.verdict(id).unwrap().clone()
}

fn fail(details: &str) -> Verdict {
    Verdict::Fail { details: details.to_owned() }
}

fn skip(reason: &str) -> Verdict {
    Verdict::Skipped { reason: reason.to_owned() }
}

#[test]
fn a_silent_client_is_skipped_throughout() {
    let report = evaluate(&session(vec![]), &schema(), "client x".to_owned());
    assert_eq!(report.skipped(), 11);
}

#[test]
fn malformed_headers_are_listed_in_order() {
    let mut bad = seen(0, 1, 7, 2);
    bad.header_error = Some("header (v2): short".to_owned());
    let mut worse = seen(1, 0, 18, 9);
    worse.header_error = Some("header (v1): odd".to_owned());
    let s = session(vec![seen(0, 0, API_VERSIONS, 3), bad, worse]);
    assert_eq!(
        verdict(&s, "client/header-well-formed"),
        fail(
            "conn #0 request #1 to broker 0 (api 7 v2): header (v2): short; conn #1 request #0 to \
             broker 0 (api 18 v9): header (v1): odd"
        )
    );
    let s = session(vec![seen(0, 0, API_VERSIONS, 3)]);
    assert_eq!(verdict(&s, "client/header-well-formed"), Verdict::Pass);
    assert_eq!(
        verdict(&session(vec![]), "client/header-well-formed"),
        skip("client sent no requests")
    );
}

#[test]
fn every_connection_starts_with_api_versions() {
    let s = session(vec![
        seen(0, 0, API_VERSIONS, 3),
        seen(0, 1, METADATA, 12),
        seen(1, 0, METADATA, 12),
    ]);
    assert_eq!(
        verdict(&s, "client/starts-with-api-versions"),
        fail(
            "conn #1 request #0 to broker 0 (api 3 v12): first request on the connection is not \
             ApiVersions"
        )
    );
}

#[test]
fn correlation_ids_are_unique_on_a_connection_only() {
    let same = |conn_id: usize, index: usize, id: i32| {
        let mut o = seen(conn_id, index, API_VERSIONS, 3);
        o.header = Some(SeenHeader { api_key: API_VERSIONS, api_version: 3, correlation_id: id });
        o
    };
    let s = session(vec![same(0, 0, 5), same(1, 0, 5), same(0, 1, 6)]);
    assert_eq!(verdict(&s, "client/correlation-ids-unique"), Verdict::Pass);
    let s = session(vec![same(0, 0, 5), same(0, 1, 5)]);
    assert_eq!(
        verdict(&s, "client/correlation-ids-unique"),
        fail("conn #0 request #1 to broker 0 (api 18 v3) reuses correlation id 5")
    );
}

#[test]
fn versions_stay_within_what_was_advertised() {
    let id = "client/respects-advertised-versions";
    let s = session(vec![seen(0, 0, API_VERSIONS, 99)]);
    assert_eq!(verdict(&s, id), skip("only ApiVersions requests observed"));
    let s = session(vec![seen(0, 1, PRODUCE, 3), seen(0, 2, PRODUCE, 13)]);
    assert_eq!(verdict(&s, id), Verdict::Pass);
    let s = session(vec![seen(0, 1, PRODUCE, 14), seen(0, 2, 60, 0)]);
    assert_eq!(
        verdict(&s, id),
        fail(
            "conn #0 request #1 to broker 0 (api 0 v14) is outside the advertised 3-13; conn #0 \
             request #2 to broker 0 (api 60 v0) uses an api key the harness never advertised"
        )
    );
}

#[test]
fn bodies_decode_where_they_are_read() {
    let exempt = Observation { body_exempt: true, ..seen(0, 0, 60, 0) };
    assert_eq!(
        verdict(&session(vec![exempt]), "client/body-decodes"),
        skip("no checkable request bodies observed")
    );
    let mut bad = seen(0, 0, METADATA, 12);
    bad.body_error = Some("body: short".to_owned());
    assert_eq!(
        verdict(&session(vec![bad]), "client/body-decodes"),
        fail("conn #0 request #0 to broker 0 (api 3 v12): body: short")
    );
}

#[test]
fn produces_and_fetches_go_to_the_leader() {
    let id = "client/routes-to-partition-leader";
    let topic = routing_topic();
    let s = session(vec![to(2, "elsewhere", 0, seen(0, 1, PRODUCE, 9))]);
    assert_eq!(verdict(&s, id), skip("no produce/fetch for the routing topic observed"));
    let s = session(vec![to(2, topic, 2, seen(0, 1, PRODUCE, 9))]);
    assert_eq!(verdict(&s, id), Verdict::Pass);
    let astray = || session(vec![to(0, topic, 2, seen(0, 1, PRODUCE, 9))]);
    assert_eq!(
        verdict(&astray(), id),
        fail(
            "conn #0 request #1 to broker 0 (api 0 v9) addresses odradek-routing[2], which broker \
             0 was never advertised as leading"
        )
    );
    let mut moved = astray();
    moved.events = vec![FaultEvent { partition: 2, to_node: 0 }];
    assert_eq!(verdict(&moved, id), Verdict::Pass);
}

#[test]
fn a_moved_partition_is_found_again() {
    let id = "client/recovers-from-leader-change";
    let topic = routing_topic();
    let mut s = session(vec![to(0, topic, 0, seen(0, 1, PRODUCE, 9))]);
    assert_eq!(verdict(&s, id), skip("leader-move fault not armed"));
    s.fault = Some(HarnessFault::LeaderMove);
    assert_eq!(
        verdict(&s, id),
        skip("the client sent nothing that triggered the leader move")
    );
    s.events = vec![FaultEvent { partition: 0, to_node: 1 }];
    assert_eq!(
        verdict(&s, id),
        fail(
            "after NOT_LEADER moved odradek-routing[0]'s leadership to broker 1, no produce/fetch \
             ever reached it there"
        )
    );
    s.observations.push(to(1, topic, 0, seen(1, 1, PRODUCE, 9)));
    assert_eq!(verdict(&s, id), Verdict::Pass);
}

#[test]
fn a_refused_token_is_heeded_and_acknowledged() {
    let heeds = "client/heeds-sasl-rejection";
    let acks = "client/acknowledges-sasl-rejection";
    let start = || {
        vec![
            seen(0, 0, API_VERSIONS, 3),
            seen(0, 1, SASL_HANDSHAKE, 1),
            seen(0, 2, SASL_AUTHENTICATE, 2),
        ]
    };
    let mut s = session(start());
    assert_eq!(verdict(&s, heeds), skip("no SASL token was refused in this session"));
    assert_eq!(verdict(&s, acks), skip("no SASL token was refused in this session"));
    s.sasl_rejections = vec![(0, 2)];
    assert_eq!(verdict(&s, heeds), Verdict::Pass);
    assert_eq!(
        verdict(&s, acks),
        fail(
            "token refused on connection 0 and the client said nothing more, leaving the exchange \
             open"
        )
    );
    s.observations.push(seen(1, 3, METADATA, 12));
    s.observations.push(seen(0, 3, SASL_AUTHENTICATE, 2));
    s.observations.push(seen(0, 4, API_VERSIONS, 3));
    assert_eq!(verdict(&s, heeds), Verdict::Pass);
    assert_eq!(verdict(&s, acks), Verdict::Pass);
    s.observations.push(seen(0, 5, PRODUCE, 9));
    assert_eq!(
        verdict(&s, heeds),
        fail(
            "token refused on connection 0, then api 0 was sent on it anyway: the client read a \
             success-shaped refusal as success"
        )
    );
    assert!(is_sasl_api(SASL_HANDSHAKE) && is_sasl_api(SASL_AUTHENTICATE));
    assert!(is_sasl_api(API_VERSIONS) && !is_sasl_api(METADATA));
}

#[test]
fn a_throttle_is_waited_out() {
    let id = "client/honours-throttle-time";
    let mut s = session(vec![at(1000, seen(0, 0, METADATA, 12))]);
    assert_eq!(verdict(&s, id), skip("no response carried a throttle in this session"));
    s.throttles = vec![(0, 0, 1000)];
    assert_eq!(
        verdict(&s, id),
        skip(
            "every throttled connection went quiet afterwards, so there was no pause to observe"
        )
    );
    // Before the middle of the window, and in its last eighth.
    for fine in [1199, 1350, 1400] {
        s.observations.truncate(1);
        s.observations.push(at(fine, seen(0, 1, METADATA, 12)));
        assert_eq!(verdict(&s, id), Verdict::Pass, "{fine}");
    }
    for early in [1200, 1349] {
        s.observations.truncate(1);
        s.observations.push(at(early, seen(0, 1, METADATA, 12)));
        let into = early - 1000;
        assert_eq!(
            verdict(&s, id),
            fail(&format!(
                "answered with throttle_time_ms=400 and the client was still sending {into}ms into \
                 the pause (api 3 v12); requests already in flight are fair, but by now they have \
                 drained and the broker is not reading yet — that request waits out the mute \
                 instead of the client waiting out the throttle"
            ))
        );
    }
    // Another connection is free to talk.
    s.observations.truncate(1);
    s.observations.push(at(1500, seen(0, 1, METADATA, 12)));
    s.observations.push(at(1250, seen(1, 1, METADATA, 12)));
    assert_eq!(verdict(&s, id), Verdict::Pass);
}

#[test]
fn a_field_from_the_future_does_not_stop_a_client() {
    let id = "client/tolerates-unknown-tagged-fields";
    let mut s = session(vec![seen(0, 0, API_VERSIONS, 3)]);
    assert_eq!(
        verdict(&s, id),
        skip("no response carried an unknown tagged field in this session")
    );
    s.tagged = vec![(0, 0)];
    assert_eq!(
        verdict(&s, id),
        fail(
            "answered request 0 on connection 0 with tag 60000, a field no schema defines, and the \
             client sent nothing further anywhere; a client that stops at a field from the future \
             stops at every broker newer than itself"
        )
    );
    s.observations.push(seen(1, 0, API_VERSIONS, 3));
    assert_eq!(verdict(&s, id), Verdict::Pass);
    s.observations.truncate(1);
    s.observations.push(seen(0, 1, METADATA, 12));
    assert_eq!(verdict(&s, id), Verdict::Pass);
}

#[test]
fn an_observation_is_described_by_where_it_came_from() {
    let o = Observation { node_id: 2, ..seen(3, 4, 1, 12) };
    assert_eq!(describe(&o), "conn #3 request #4 to broker 2 (api 1 v12)");
}

#[test]
fn a_frame_begins_with_its_api() {
    assert_eq!(frame_api(&vec![0, 18, 0, 3, 0, 0, 0]), None);
    assert_eq!(frame_api(&vec![0, 18, 0, 3, 0, 0, 0, 1]), Some((18, 3)));
    assert_eq!(frame_api(&vec![0xff, 0xfe, 0x80, 0, 0, 0, 0, 1]), Some((-2, -32768)));
}

#[test]
fn a_probe_from_the_future_is_read_at_the_newest_version() {
    assert_eq!(header_lookup(API_VERSIONS, 9, 4), 4);
    assert_eq!(header_lookup(API_VERSIONS, 3, 4), 3);
    assert_eq!(header_lookup(METADATA, 99, 4), 99);
    assert!(!reads_body(API_VERSIONS, 5, 4));
    assert!(reads_body(API_VERSIONS, 4, 4));
    for api in [
        PRODUCE,
        FETCH,
        METADATA,
        LIST_OFFSETS,
        SASL_HANDSHAKE,
        INIT_PRODUCER_ID,
        SASL_AUTHENTICATE,
    ] {
        assert!(reads_body(api, 99, 4));
    }
    assert!(!reads_body(12, 0, 4));
    for api in advertised(&schema()) {
        assert!(reads_body(api.api_key, api.max_version, 4));
    }
}

#[test]
fn topics_are_known_by_name_or_by_id() {
    assert_eq!(resolve_topic(&"t".to_owned(), &ROUTING_TOPIC_ID), "t");
    assert_eq!(resolve_topic(&String::new(), &ROUTING_TOPIC_ID), "odradek-routing");
    let mut id = [0u8; 16];
    id[0] = 0xab;
    assert_eq!(
        resolve_topic(&String::new(), &id),
        "<topic id [ab, 00, 00, 00, 00, 00, 00, 00, 00, 00, 00, 00, 00, 00, 00, 00]>"
    );
    assert_eq!(&ROUTING_TOPIC_ID, b"odradek-routing!");
}

fn arrival() -> Arrival {
    Arrival { node_id: 1, conn_id: 2, index: 3, at_ms: 4 }
}

#[test]
fn a_short_frame_has_no_header() {
    let o = short_frame(arrival(), 5);
    assert_eq!(o.header_error.as_deref(), Some("frame of 5 byte(s) cannot hold a header"));
    assert_eq!((o.api_key, o.api_version, o.body_exempt), (-1, -1, true));
    assert_eq!((o.node_id, o.conn_id, o.index, o.at_ms), (1, 2, 3, 4));
    assert_eq!(o.header, None);
}

#[test]
fn what_is_read_of_a_frame_is_observed() {
    let header = SeenHeader { api_key: 0, api_version: 9, correlation_id: 77 };
    let other = SeenHeader { api_key: 0, api_version: 9, correlation_id: 78 };
    let both = Attempts { flexible: Some(header), classic: Some(other) };
    let o = observe(arrival(), 99, 1, Reading::NoVersion(both));
    assert_eq!((o.header, o.header_error.as_deref(), o.body_exempt), (Some(header), None, true));
    let one = Attempts { flexible: None, classic: Some(other) };
    assert_eq!(observe(arrival(), 99, 1, Reading::NoVersion(one)).header, Some(other));
    let none = Attempts { flexible: None, classic: None };
    let bad = Reading::BadHeader { version: 2, error: "eof".to_owned(), attempts: none };
    let o = observe(arrival(), 0, 9, bad);
    assert_eq!(o.header_error.as_deref(), Some("header (v2): eof"));
    assert_eq!(o.header, None);
    let bad = Reading::BadHeader { version: 2, error: "eof".to_owned(), attempts: one };
    assert_eq!(observe(arrival(), 0, 9, bad).header, Some(other));
    let good = |decoded, trailing| Reading::Good {
        header,
        body: Some(BodyReading { decoded, trailing }),
    };
    let o = observe(arrival(), 0, 9, good(Err("eof".to_owned()), 0));
    assert_eq!((o.body_error.as_deref(), o.body_exempt), (Some("body: eof"), false));
    let o = observe(arrival(), 0, 9, good(Ok(SeenBody::Other), 2));
    assert_eq!(o.body_error.as_deref(), Some("body leaves 2 undecoded trailing byte(s)"));
    for api in [INIT_PRODUCER_ID, SASL_AUTHENTICATE] {
        let o = observe(arrival(), api, 0, good(Ok(SeenBody::Other), 1));
        assert!(!o.body_exempt);
        assert_eq!(o.body_error.as_deref(), Some("body leaves 1 undecoded trailing byte(s)"));
    }
    let topics = vec![
        AskedTopic { name: "a".to_owned(), topic_id: Some([0; 16]), partitions: vec![1, 0] },
        AskedTopic { name: String::new(), topic_id: Some(ROUTING_TOPIC_ID), partitions: vec![2] },
        AskedTopic { name: String::new(), topic_id: None, partitions: vec![5] },
    ];
    let o = observe(arrival(), 0, 9, good(Ok(SeenBody::Topics(topics)), 0));
    let routes: Vec<(&str, i32)> =
        o.routes.iter().map(|r| (r.topic.as_str(), r.partition)).collect();
    assert_eq!(routes, vec![("a", 1), ("a", 0), ("odradek-routing", 2), ("", 5)]);
    let o = observe(arrival(), 17, 1, good(Ok(SeenBody::Mechanism("PLAIN".to_owned())), 0));
    assert_eq!(o.sasl_mechanism.as_deref(), Some("PLAIN"));
    let o = observe(arrival(), 18, 9, Reading::Good { header, body: None });
    assert_eq!((o.header, o.body_exempt), (Some(header), true));
}

fn ask(
    harness: &mut Harness,
    api_key: i16,
    api_version: i16,
    node_id: i32,
    routes: &[(&str, i32)],
    mechanism: Option<&str>,
) -> Option<Reply> {
    let routes: Vec<Route> =
        routes.iter().map(|(t, p)| Route { topic: (*t).to_owned(), partition: *p }).collect();
    let mechanism = mechanism.map(str::to_owned);
    let asked = Asked {
        api_key,
        api_version,
        conn_id: 6,
        index: 7,
        routes: &routes,
        sasl_mechanism: &mechanism,
    };
    harness.respond(asked, &schema(), node_id, 1234)
}

#[test]
fn the_harness_advertises_what_it_answers() {
    let rows = advertised(&schema());
    let keys: Vec<i16> = rows.iter().map(|r| r.api_key).collect();
    assert_eq!(
        keys,
        vec![
            API_VERSIONS,
            PRODUCE,
            INIT_PRODUCER_ID,
            SASL_HANDSHAKE,
            SASL_AUTHENTICATE,
            FETCH,
            METADATA,
            LIST_OFFSETS
        ]
    );
    let mut harness = Harness::new(vec![1, 2, 3], None);
    for key in keys {
        assert!(ask(&mut harness, key, 3, 0, &[], None).is_some());
    }
    assert!(ask(&mut harness, 60, 0, 0, &[], None).is_none());
}

#[test]
fn a_probe_above_the_range_is_answered_at_zero() {
    let mut harness = Harness::new(vec![1, 2, 3], None);
    let reply = ask(&mut harness, API_VERSIONS, 5, 0, &[], None).unwrap();
    assert_eq!((reply.version, reply.plain_header), (0, true));
    assert!(matches!(reply.body, Body::ApiVersions { error: 35, tagged: None, .. }));
    let reply = ask(&mut harness, API_VERSIONS, 4, 0, &[], None).unwrap();
    assert_eq!(reply.version, 4);
    assert!(matches!(reply.body, Body::ApiVersions { error: 0, .. }));
}

#[test]
fn leadership_moves_once_per_partition() {
    let topic = routing_topic();
    let mut harness = Harness::new(vec![1, 2, 3], Some(HarnessFault::LeaderMove));
    let codes = |reply: Option<Reply>| match reply.unwrap().body {
        Body::Produce(topics) => {
            topics.0[0].partitions.iter().map(|p| (p.index, p.error_code)).collect::<Vec<_>>()
        }
        Body::Fetch(topics) => {
            topics.0[0].partitions.iter().map(|p| (p.partition_index, p.error_code)).collect()
        }
        _ => unreachable!(),
    };
    assert_eq!(codes(ask(&mut harness, FETCH, 9, 2, &[(topic, 2)], None)), vec![(2, 0)]);
    // The first produce to the leader moves it, once.
    assert_eq!(codes(ask(&mut harness, PRODUCE, 9, 2, &[(topic, 2)], None)), vec![(2, 6)]);
    assert_eq!(codes(ask(&mut harness, PRODUCE, 9, 2, &[(topic, 2)], None)), vec![(2, 6)]);
    assert_eq!(codes(ask(&mut harness, PRODUCE, 9, 0, &[(topic, 2)], None)), vec![(2, 0)]);
    assert_eq!(harness.events, vec![FaultEvent { partition: 2, to_node: 0 }]);
    assert_eq!(harness.leaders, vec![0, 1, 0]);
    assert_eq!(codes(ask(&mut harness, PRODUCE, 9, 0, &[(topic, 7)], None)), vec![(7, 3)]);
}

#[test]
fn answers_are_whole() {
    let topic = routing_topic();
    let mut harness = Harness::new(vec![9092, 9093, 9094], None);
    match ask(&mut harness, METADATA, 9, 0, &[], None).unwrap().body {
        Body::Metadata(answer) => {
            let brokers: Vec<(i32, &str, i32)> =
                answer.brokers.iter().map(|b| (b.node_id, b.host.as_str(), b.port)).collect();
            let expected =
                vec![(0, "127.0.0.1", 9092), (1, "127.0.0.1", 9093), (2, "127.0.0.1", 9094)];
            assert_eq!(brokers, expected);
            assert_eq!((answer.cluster_id.as_str(), answer.controller_id), ("odradek-harness", 0));
            assert_eq!((answer.topic.as_str(), answer.topic_id), (topic, ROUTING_TOPIC_ID));
            assert_eq!(answer.throttle_time_ms, 0);
            for (i, p) in (0..).zip(&answer.partitions) {
                assert_eq!((p.partition_index, p.leader_id), (i, i));
                assert_eq!((p.replica_nodes, p.isr_nodes), ([i], [i]));
            }
            assert_eq!(answer.partitions.len(), 3);
        }
        other => panic!("{other:?}"),
    }
    let routes = [(topic, 1), ("other", 0), (topic, 2)];
    match ask(&mut harness, PRODUCE, 9, 1, &routes, None).unwrap().body {
        Body::Produce(topics) => {
            assert_eq!(topics.0.len(), 2);
            assert_eq!((topics.0[0].topic.as_str(), topics.0[0].topic_id), (topic, ROUTING_TOPIC_ID));
            assert_eq!((topics.0[1].topic.as_str(), topics.0[1].topic_id), ("other", [0; 16]));
            let taken = &topics.0[0].partitions[0];
            assert_eq!((taken.index, taken.error_code, taken.base_offset), (1, 0, 0));
            assert_eq!((taken.log_append_time_ms, taken.log_start_offset), (-1, None));
            let refused = &topics.0[0].partitions[1];
            assert_eq!((refused.index, refused.error_code, refused.base_offset), (2, 6, -1));
            let unknown = &topics.0[1].partitions[0];
            assert_eq!((unknown.index, unknown.error_code, unknown.base_offset), (0, 3, -1));
        }
        other => panic!("{other:?}"),
    }
    match ask(&mut harness, FETCH, 9, 1, &routes, None).unwrap().body {
        Body::Fetch(topics) => {
            let log = &topics.0[0].partitions[0];
            assert_eq!((log.partition_index, log.error_code), (1, 0));
            assert_eq!((log.high_watermark, log.last_stable_offset, log.log_start_offset), (0, 0, 0));
            assert!(log.records.is_empty());
        }
        other => panic!("{other:?}"),
    }
    match ask(&mut harness, LIST_OFFSETS, 9, 1, &routes, None).unwrap().body {
        Body::ListOffsets(topics) => {
            let row = &topics.0[0].partitions[1];
            assert_eq!((row.partition_index, row.error_code), (2, 6));
            assert_eq!((row.timestamp, row.offset, row.leader_epoch), (-1, 0, -1));
        }
        other => panic!("{other:?}"),
    }
    match ask(&mut harness, INIT_PRODUCER_ID, 4, 1, &[], None).unwrap().body {
        Body::InitProducerId { error, producer_id, producer_epoch } => {
            assert_eq!((error, producer_id, producer_epoch), (0, 1000, 0));
        }
        other => panic!("{other:?}"),
    }
}

#[test]
fn a_token_is_refused_once_and_only_where_it_can_be() {
    let mut harness = Harness::new(vec![1, 2, 3], Some(HarnessFault::RejectSaslToken));
    let refused = |reply: Option<Reply>| match reply.unwrap().body {
        Body::SaslAuthenticate { error: 0, auth } => {
            assert!(auth.is_empty() || auth == "{\"status\":\"invalid_token\"}");
            !auth.is_empty()
        }
        _ => unreachable!(),
    };
    assert!(!refused(ask(&mut harness, SASL_AUTHENTICATE, 2, 0, &[], None)));
    let reply = ask(&mut harness, SASL_HANDSHAKE, 1, 0, &[], Some("PLAIN")).unwrap();
    assert!(matches!(reply.body, Body::SaslHandshake { error: 33, .. }));
    assert!(!refused(ask(&mut harness, SASL_AUTHENTICATE, 2, 0, &[], None)));
    let reply =
        ask(&mut harness, SASL_HANDSHAKE, 1, 0, &[], Some(offered_mechanism())).unwrap();
    match reply.body {
        Body::SaslHandshake { error: 0, mechanisms } => assert_eq!(mechanisms, ["OAUTHBEARER"]),
        other => panic!("{other:?}"),
    }
    assert!(refused(ask(&mut harness, SASL_AUTHENTICATE, 2, 0, &[], None)));
    assert!(!refused(ask(&mut harness, SASL_AUTHENTICATE, 2, 0, &[], None)));
    assert_eq!(harness.sasl_rejections, vec![(6, 7)]);
}

#[test]
fn throttles_and_tags_are_staged_where_the_version_has_room() {
    let mut harness = Harness::new(vec![1, 2, 3], Some(HarnessFault::Throttle));
    let throttle = |reply: Option<Reply>| match reply.unwrap().body {
        Body::Metadata(answer) => answer.throttle_time_ms,
        _ => unreachable!(),
    };
    assert_eq!(throttle(ask(&mut harness, METADATA, 2, 0, &[], None)), 0);
    assert_eq!(throttle(ask(&mut harness, METADATA, 3, 0, &[], None)), 400);
    assert_eq!(harness.throttles, vec![(6, 7, 1234)]);
    let mut harness = Harness::new(vec![1, 2, 3], Some(HarnessFault::UnknownTaggedField));
    for (api, version, expected) in
        [(METADATA, 8, false), (METADATA, 9, true), (API_VERSIONS, 2, false), (API_VERSIONS, 3, true)]
    {
        let tagged = match ask(&mut harness, api, version, 0, &[], None).unwrap().body {
            Body::Metadata(answer) => answer.tagged,
            Body::ApiVersions { tagged, .. } => tagged,
            _ => unreachable!(),
        };
        assert_eq!(tagged.is_some(), expected, "{api} v{version}");
        for field in tagged {
            assert_eq!((field.tag, field.data.as_str()), (60_000, "from a newer broker"));
        }
    }
    assert_eq!(harness.tagged, vec![(6, 7), (6, 7)]);
    let kept = harness.into_session(vec![seen(0, 0, API_VERSIONS, 3)]);
    assert_eq!(kept.tagged.len(), 2);
    assert_eq!(kept.fault, Some(HarnessFault::UnknownTaggedField));
    assert_eq!(kept.observations.len(), 1);
}

#[test]
fn the_last_connection_to_close_ends_the_session() {
    let mut tracker = ConnTracker::new();
    assert_eq!(tracker.open(), 0);
    assert_eq!(tracker.open(), 1);
    assert!(!tracker.close());
    assert_eq!(tracker.open(), 2);
    assert!(!tracker.close());
    assert!(tracker.close());
}

#[test]
fn a_session_stops_at_its_limit() {
    let mut collector = Collector::new(2);
    for index in 0..4 {
        collector.hear(Heard::Request(seen(0, index, METADATA, 12)));
    }
    assert_eq!(collector.phase, Phase::Over);
    let indices: Vec<usize> = collector.observations.iter().map(|o| o.index).collect();
    assert_eq!(indices, vec![0, 1]);
    assert_eq!(Collector::new(0).phase, Phase::Over);
}

#[test]
fn what_was_queued_at_the_end_is_still_taken() {
    for hung_up in [true, false] {
        let mut collector = Collector::new(10);
        collector.hear(Heard::Request(seen(0, 0, METADATA, 12)));
        collector.hear(if hung_up { Heard::HungUp } else { Heard::Quiet });
        assert_eq!(collector.phase, Phase::Draining);
        collector.hear(Heard::Request(seen(0, 1, METADATA, 12)));
        collector.hear(Heard::HungUp);
        assert_eq!(collector.phase, Phase::Draining);
        collector.hear(Heard::NothingQueued);
        assert_eq!(collector.phase, Phase::Over);
        collector.hear(Heard::Request(seen(0, 2, METADATA, 12)));
        assert_eq!(collector.observations.len(), 2);
    }
}

#[test]
fn a_session_nobody_joins_says_how_long_it_waited() {
    let config = ObserveConfig::default();
    assert_eq!(no_client(config.accept_timeout), "no client connected within 60s");
    assert_eq!(no_client(Wait { nanos: 1_500_000 }), "no client connected within 1.5ms");
    assert_eq!(config.max_requests, 32);
    assert_eq!(config.idle_timeout.nanos, 3_000_000_000);
    assert_eq!(config.fault, None);
}

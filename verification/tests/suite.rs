use std::io::Read;

use odradek_acceptance::checks::batch::{
    batch_record_count, count_records, gzip_batch, gzip_records, probe_batch,
};
use odradek_acceptance::checks::ctx::{
    advertised_range, correlation, hex16, negotiate, negotiate_all, run_id, span, unique_topic,
    unique_transactional_id, CodeNames, ProbeConfig, ServerCtx, Wait,
};
use odradek_acceptance::checks::server::{
    from_wire, judge_reading, order, server_checks, server_report, unknown_header,
    unknown_produce_header, Broker, ClusterControl, Reading, ServerCheck,
};
use odradek_acceptance::checks::server_basic::{
    discover, judge_leaders, judge_unknown_topic, judge_unsupported, judge_v0, metadata_shape,
};
use odradek_acceptance::checks::server_cluster::{judge_agreement, judge_span};
use odradek_acceptance::checks::server_groups::judge_metadata;
use odradek_acceptance::checks::server_log::{
    batch_integrity, judge_passthrough, judge_silence, payload,
};
use odradek_acceptance::checks::server_sasl::{judge_cost, judge_proof, scram_attr};
use odradek_acceptance::checks::server_txn::{judge_commit, judge_held, judge_zombie};
use odradek_acceptance::checks::tape::{
    Action, ActionOf, BatchStamp, CheckError, Event, ScramProof, Step,
};
use odradek_acceptance::raw::WireError;
use odradek_acceptance::text;
use odradek_acceptance::text::{
    contains_text, hex_text, join, read_u32, same_text, split_commas,
};
use odradek_acceptance::wire::{
    ApiVersion, ApiVersionsAnswer, BrokerRow, ErrorCode, FetchedRow, MetadataAnswer, PartitionRow,
    ProducedRow, RecordBatch, Records, Response, Schema, TopicRow, Versions,
};
use odradek_acceptance::Verdict;

fn fail(details: &str) -> Verdict {
    Verdict::Fail { details: details.to_owned() }
}

fn skip(reason: &str) -> Verdict {
    Verdict::Skipped { reason: reason.to_owned() }
}

fn code(code: i16) -> ErrorCode {
    ErrorCode { code, shown: format!("E{code}") }
}

fn row(api_key: i16, min_version: i16, max_version: i16) -> ApiVersion {
    ApiVersion { api_key, min_version, max_version }
}

fn plain() -> BatchStamp {
    BatchStamp { producer_id: -1, producer_epoch: -1, base_sequence: -1, transactional: false }
}

fn context(discovery: Result<Vec<ApiVersion>, String>) -> ServerCtx {
    let v = || Versions { min: 0, max: 9 };
    let n = || "E".to_owned();
    ServerCtx {
        addr: "h:1".to_owned(),
        discovery,
        config: ProbeConfig::default(),
        sasl_addr: None,
        schema: Schema {
            produce: v(),
            fetch: v(),
            list_offsets: v(),
            metadata: v(),
            offset_commit: v(),
            offset_fetch: v(),
            find_coordinator: v(),
            join_group: v(),
            heartbeat: v(),
            leave_group: v(),
            sync_group: v(),
            describe_groups: v(),
            sasl_handshake: v(),
            api_versions: v(),
            create_topics: v(),
            delete_topics: v(),
            init_producer_id: v(),
            add_partitions_to_txn: v(),
            add_offsets_to_txn: v(),
            end_txn: v(),
            txn_offset_commit: v(),
            sasl_authenticate: v(),
            consumer_group_heartbeat: v(),
        },
        names: CodeNames {
            none: n(),
            not_coordinator: n(),
            offset_out_of_range: n(),
            not_leader_or_follower: n(),
            unknown_topic_or_partition: n(),
            leader_not_available: n(),
            unknown_topic_id: n(),
            replica_not_available: n(),
        },
        pid: 7,
        run_id: run_id(7, 8),
    }
}

#[test]
fn a_version_is_the_highest_that_both_sides_speak() {
    assert_eq!(negotiate("Fetch", Some((0, 12)), 4, 11), Ok(11));
    assert_eq!(negotiate("Fetch", Some((0, 7)), 4, 11), Ok(7));
    assert_eq!(negotiate("Fetch", Some((4, 4)), 4, 4), Ok(4));
    assert_eq!(
        negotiate("Fetch", None, 4, 11),
        Err(skip("server does not advertise the Fetch api (or discovery failed)"))
    );
    let none = skip("no usable Fetch version: server speaks 0-3, check needs 4-11");
    assert_eq!(negotiate("Fetch", Some((0, 3)), 4, 11), Err(none.clone()));
    assert_eq!(negotiate_all("Fetch", Some((0, 3)), 4, 11), Err(none));
    assert!(negotiate("Fetch", Some((12, 15)), 4, 11).is_err());
    assert_eq!(negotiate_all("Fetch", Some((5, 9)), 4, 7), Ok(vec![5, 6, 7]));
    assert_eq!(advertised_range(&vec![row(1, 2, 3), row(1, 4, 5)], 1), Some((2, 3)));
    assert_eq!(advertised_range(&vec![row(1, 2, 3)], 2), None);
    assert_eq!(span(&vec![3, 4, 5]), "v3-5");
    assert_eq!(span(&vec![7]), "v7");
    assert_eq!(span(&vec![]), "none");
}

#[test]
fn a_budget_is_so_many_attempts_and_at_least_one() {
    let wait = |nanos: u64| Wait { nanos };
    let config = ProbeConfig::default();
    assert_eq!(config.settle_attempts(), 200);
    assert_eq!(config.recovery_attempts(), 600);
    assert_eq!(ProbeConfig::attempts(wait(0), wait(100_000_000)), 1);
    assert_eq!(ProbeConfig::attempts(wait(5_000_000), wait(0)), 5);
    assert_eq!(ProbeConfig::attempts(wait(1_050_000_000), wait(100_000_000)), 10);
}

#[test]
fn names_carry_the_process_and_the_clock() {
    assert_eq!(run_id(12, 34), "12-34");
    assert_eq!(unique_topic("a-b", 12, 34), "odradek-accept-a-b-12-34");
    assert_eq!(unique_transactional_id("x", 1, 2), "odradek-txn-x-odradek-accept-x-1-2");
    let ctx = context(Ok(vec![]));
    assert_eq!(ctx.check_group("join"), "join-odradek-acceptance-7-8");
    assert_eq!(ctx.mint_member_id("m"), "odradek-acceptance-m-7");
    assert_ne!(unique_topic("a", 1, 23), unique_topic("a", 12, 3));
    assert_ne!(unique_topic("a-1", 2, 3), unique_topic("a", 1, 3));
    assert_eq!(correlation(51, 3), 54);
    assert_eq!(hex16(&[0xab; 16]), "ab".repeat(16));
}

#[test]
fn a_frame_is_judged_from_its_front() {
    let answer = || {
        Ok(Response::ApiVersions(ApiVersionsAnswer { error: code(0), api_keys: vec![] }))
    };
    let reading = |echoed, header, body, trailing| Reading { echoed, header, body, trailing };
    let violated = |r: Reading| match judge_reading(7, 1, 3, r) {
        Err(CheckError::Violation(details)) => details,
        _ => unreachable!(),
    };
    assert!(judge_reading(7, 1, 3, reading(Some(7), Ok(()), answer(), 0)).is_ok());
    assert_eq!(
        violated(reading(None, Ok(()), answer(), 0)),
        "response frame shorter than a correlation id"
    );
    assert_eq!(
        violated(reading(Some(8), Err("x".to_owned()), answer(), 0)),
        "sent correlation id 7, response carries 8"
    );
    assert_eq!(
        violated(reading(Some(7), Err("eof".to_owned()), answer(), 9)),
        "response header (decoded as v1): eof"
    );
    assert_eq!(
        violated(reading(Some(7), Ok(()), Err("eof".to_owned()), 9)),
        "response body (decoded as v3): eof"
    );
    assert_eq!(
        violated(reading(Some(7), Ok(()), answer(), 2)),
        "2 byte(s) of trailing garbage after the response body"
    );
}

#[test]
fn only_a_bad_length_is_the_subjects_fault() {
    assert!(matches!(
        from_wire(&WireError::BadFrameLength(-1)),
        CheckError::Violation(d) if d == "frame length -1 out of range"
    ));
    for error in [
        WireError::Timeout,
        WireError::Io("x".to_owned()),
        WireError::Encode("x".to_owned()),
        WireError::Tls("x".to_owned()),
    ] {
        let said = error.text();
        assert!(matches!(from_wire(&error), CheckError::Infra(d) if d == said));
    }
    assert_eq!(
        unknown_header(9, 3).into_verdict(),
        Verdict::Error { details: "no header version known for api 9 v3".to_owned() }
    );
    assert_eq!(unknown_produce_header(3).details(), "no header version for Produce v3");
    assert_eq!(CheckError::Violation("v".to_owned()).into_verdict(), fail("v"));
    let told = CheckError::Infra("refused".to_owned()).context("joining");
    assert_eq!(told.details(), "joining: refused");
}

#[test]
fn discovery_takes_a_violation_for_nothing_advertised() {
    let refused = vec![Event::Refused("no".to_owned())];
    match discover(&vec![], "h:1", 4) {
        Err(ActionOf::Connect { addr }) => assert_eq!(addr, "h:1"),
        _ => unreachable!(),
    }
    match discover(&refused, "h:1", 4) {
        Ok(Err(details)) => {
            assert_eq!(details, "discovery (ApiVersions v0): connect h:1: no");
        }
        _ => unreachable!(),
    }
    let violated = vec![
        Event::Connected(3),
        Event::Failed(CheckError::Violation("garbage".to_owned())),
    ];
    match discover(&violated, "h:1", 4) {
        Ok(Ok(keys)) => assert!(keys.is_empty()),
        _ => unreachable!(),
    }
    let answered = vec![
        Event::Connected(3),
        Event::Answer {
            response: Response::ApiVersions(ApiVersionsAnswer {
                error: code(0),
                api_keys: vec![row(18, 0, 4)],
            }),
            nanos: 1,
        },
    ];
    match discover(&answered, "h:1", 4) {
        Ok(Ok(keys)) => assert_eq!(keys, vec![row(18, 0, 4)]),
        _ => unreachable!(),
    }
}

#[test]
fn a_check_asks_for_one_thing_at_a_time() {
    let ctx = context(Ok(vec![row(18, 0, 9)]));
    let mut tape: Vec<Event> = vec![];
    match ServerCheck::V0Basic.step(&ctx, &tape) {
        Step::Ask(ActionOf::Connect { addr }) => assert_eq!(addr, "h:1"),
        _ => unreachable!(),
    }
    tape.push(Event::Connected(5));
    match ServerCheck::V0Basic.step(&ctx, &tape) {
        Step::Ask(Action::Probe { conn, version, encode_at, decode_at, .. }) => {
            assert_eq!((conn, version, encode_at, decode_at), (5, 0, 0, 0));
        }
        _ => unreachable!(),
    }
    tape.push(Event::Answer {
        response: Response::ApiVersions(ApiVersionsAnswer {
            error: code(0),
            api_keys: vec![row(18, 0, 9)],
        }),
        nanos: 0,
    });
    assert!(matches!(ServerCheck::V0Basic.step(&ctx, &tape), Step::Done(Verdict::Pass)));
}

#[test]
fn what_cannot_be_asked_is_skipped_and_what_was_not_found_out_is_an_error() {
    let skipped = ServerCheck::MetadataBasic.step(&context(Ok(vec![])), &vec![]);
    assert!(matches!(skipped, Step::Done(Verdict::Skipped { .. })));
    let errored = ServerCheck::MetadataBasic.step(&context(Err("down".to_owned())), &vec![]);
    assert!(matches!(errored, Step::Done(Verdict::Error { .. })));
}

#[test]
fn an_unreachable_subject_is_neither_blamed_nor_cleared() {
    let keys: Vec<ApiVersion> = (0..70).map(|k| row(k, 0, 9)).collect();
    let ctx = context(Ok(keys));
    for check in server_checks() {
        let mut tape: Vec<Event> = vec![];
        let verdict = loop {
            match check.step(&ctx, &tape) {
                Step::Done(verdict) => break verdict,
                Step::Ask(ActionOf::Connect { .. }) => tape.push(Event::Refused("no".to_owned())),
                Step::Ask(ActionOf::Stamp) => tape.push(Event::Stamped(1)),
                Step::Ask(_) => tape.push(Event::Paused),
            }
        };
        let neither = matches!(verdict, Verdict::Error { .. } | Verdict::Skipped { .. });
        assert!(neither, "{}", check.id());
        if check.id() == "find-coordinator/group" {
            assert_eq!(
                verdict,
                Verdict::Error { details: "v0: connect h:1: no".to_owned() }
            );
        }
    }
}

#[test]
fn a_server_report_pairs_verdicts_with_the_catalog() {
    let verdicts = server_checks().iter().map(|c| skip(c.id())).collect();
    let report = server_report("h:1", verdicts);
    assert_eq!(report.subject, "server h:1");
    for (outcome, check) in report.outcomes.iter().zip(server_checks()) {
        assert_eq!(outcome.id.0, check.id());
        assert_eq!(outcome.requirement, check.requirement());
        assert_eq!(outcome.verdict, skip(check.id()));
    }
}

struct Lever;

impl ClusterControl for Lever {
    fn stop(&self, broker: Broker<'_>) -> Result<(), String> {
        Err(format!("{} at {} stays", broker.node_id, broker.addr))
    }

    fn start(&self, _broker: Broker<'_>) -> Result<(), String> {
        Ok(())
    }
}

#[test]
fn a_control_is_told_which_broker() {
    match order(&Lever, true, 2, "h:9") {
        Event::Controlled(Err(why)) => assert_eq!(why, "2 at h:9 stays"),
        _ => unreachable!(),
    }
    assert!(matches!(order(&Lever, false, 2, "h:9"), Event::Controlled(Ok(()))));
}

#[test]
fn api_versions_answers_are_judged() {
    let answer = |error: i16, api_keys| ApiVersionsAnswer { error: code(error), api_keys };
    assert_eq!(judge_v0(&answer(0, vec![row(18, 0, 4)])), Verdict::Pass);
    assert_eq!(judge_v0(&answer(35, vec![])), fail("error code E35"));
    assert_eq!(
        judge_v0(&answer(0, vec![row(18, 0, 4), row(1, 12, 3)])),
        fail("api key 1 advertises min 12 > max 3")
    );
    assert_eq!(
        judge_v0(&answer(0, vec![row(18, 1, 4)])),
        fail("ApiVersions advertised as 1-4, but the server just answered v0")
    );
    assert_eq!(
        judge_v0(&answer(0, vec![])),
        fail("response does not advertise the ApiVersions api itself")
    );
    assert_eq!(judge_unsupported(&answer(35, vec![row(18, 0, 4)]), 4), Verdict::Pass);
    assert_eq!(
        judge_unsupported(&answer(0, vec![row(18, 0, 4)]), 4),
        fail("expected UNSUPPORTED_VERSION (35), got E0")
    );
    assert_eq!(
        judge_unsupported(&answer(35, vec![row(18, 0, 5)]), 4),
        fail(
            "error response advertises ApiVersions max v5, but the server previously advertised v4"
        )
    );
    assert_eq!(
        judge_unsupported(&answer(35, vec![]), 4),
        fail("UNSUPPORTED_VERSION response does not advertise the supported ApiVersions range")
    );
}

fn broker(node_id: i32, host: &str, port: i32) -> BrokerRow {
    BrokerRow { node_id, host: host.to_owned(), port }
}

fn partition(leader_id: i32, replicas: Vec<i32>, isr: Vec<i32>) -> PartitionRow {
    PartitionRow { index: 0, error: code(0), leader_id, replicas, isr }
}

fn topic(name: &str, error: i16, partitions: Vec<PartitionRow>) -> TopicRow {
    TopicRow { name: Some(name.to_owned()), error: code(error), topic_id: [0; 16], partitions }
}

#[test]
fn metadata_answers_are_judged() {
    let answer = |brokers, topics| MetadataAnswer { brokers, controller_id: 1, topics };
    let shape = |brokers, topics| metadata_shape(&answer(brokers, topics));
    assert_eq!(shape(vec![broker(1, "h", 1)], vec![]), Verdict::Pass);
    assert_eq!(shape(vec![], vec![]), fail("brokers list is empty"));
    assert_eq!(
        shape(vec![broker(1, "h", 1), broker(1, "i", 2)], vec![]),
        fail("brokers list repeats a node id")
    );
    assert_eq!(
        shape(vec![broker(1, "h\"", 0)], vec![]),
        fail("broker 1 advertises implausible endpoint \"h\\\"\":0")
    );
    assert_eq!(
        shape(vec![broker(1, "h", 1)], vec![topic("t", 0, vec![])]),
        fail("requested no topics, response names 1 topic(s)")
    );
    let unknown = |topics| judge_unknown_topic(&answer(vec![], topics), "t");
    assert_eq!(unknown(vec![topic("t", 3, vec![])]), Verdict::Pass);
    assert!(matches!(unknown(vec![]), Verdict::Fail { .. }));
    assert!(matches!(unknown(vec![topic("t", 0, vec![])]), Verdict::Fail { .. }));
    let leaders = |leader| {
        let rows = vec![partition(leader, vec![], vec![])];
        judge_leaders(&answer(vec![broker(1, "h", 1)], vec![topic("t", 0, rows)]), "t")
    };
    assert_eq!(leaders(1), Verdict::Pass);
    assert!(matches!(leaders(1000), Verdict::Fail { .. }));
}

#[test]
fn clusters_are_judged() {
    assert_eq!(judge_agreement(&vec![(1, 2), (2, 2), (3, 2)], "t"), Verdict::Pass);
    assert!(matches!(judge_agreement(&vec![(1, 2), (2, 3)], "t"), Verdict::Fail { .. }));
    assert!(matches!(judge_agreement(&vec![(1, 2)], "t"), Verdict::Skipped { .. }));
    let known = vec![1, 2, 3];
    let spans = |leader, replicas, isr| judge_span("t", &partition(leader, replicas, isr), 3, &known);
    assert_eq!(spans(2, vec![2, 1, 3], vec![2]), Verdict::Pass);
    assert_eq!(
        spans(2, vec![2], vec![2]),
        fail(
            "t[0] was created asking for 3 replicas and is reported on [2]; the cluster has \
             brokers [1, 2, 3]"
        )
    );
    assert!(matches!(spans(2, vec![2, 2, 1], vec![2]), Verdict::Fail { .. }));
    assert!(matches!(spans(2, vec![2, 1, 9], vec![2]), Verdict::Fail { .. }));
    assert!(matches!(spans(4, vec![1, 2, 3], vec![2]), Verdict::Fail { .. }));
    assert!(matches!(spans(2, vec![1, 2, 3], vec![9]), Verdict::Fail { .. }));
}

#[test]
fn logs_are_judged() {
    let one = || Ok(vec![probe_batch(plain())]);
    let sent: Vec<u8> = (0..40).map(|i| if i < 8 { 0 } else { i }).collect();
    assert_eq!(batch_integrity(&sent, &sent, &one()), Verdict::Pass);
    assert_eq!(
        batch_integrity(&sent, &sent, &Err("crc".to_owned())),
        fail("fetched record set does not decode: crc")
    );
    assert_eq!(
        batch_integrity(&sent, &sent, &Ok(vec![])),
        fail("fetched 0 batches where exactly the produced one was expected")
    );
    let mut spoiled = sent.clone();
    spoiled[39] ^= 1;
    assert_eq!(
        batch_integrity(&sent, &spoiled, &one()),
        fail("stored batch differs from the produced bytes starting at byte 39 (crc-covered region)")
    );
    let mut moved = sent.clone();
    moved[7] = 9;
    assert_eq!(
        batch_integrity(&sent, &moved, &one()),
        fail("fetched batch carries base offset 9, expected 0")
    );
    assert_eq!(
        batch_integrity(&sent, &sent[..39].to_vec(), &one()),
        fail("fetched batch is 39 byte(s), produced was 40")
    );
    assert_eq!(judge_passthrough(&sent, &sent), Verdict::Pass);
    for i in 0..40 {
        let mut changed = sent.clone();
        changed[i] ^= 1;
        let rewritable = i < 8 || (12..16).contains(&i);
        assert_eq!(judge_passthrough(&sent, &changed) == Verdict::Pass, rewritable, "byte {i}");
    }
    let mut changed = sent.clone();
    changed[17] ^= 1;
    assert_eq!(
        judge_passthrough(&sent, &changed),
        fail("a gzip batch came back rewritten: 40 byte(s) produced, 40 returned, and its header differs in more than the base offset and the leader epoch")
    );
    assert!(matches!(judge_passthrough(&sent, &sent[..39].to_vec()), Verdict::Fail { .. }));
    assert!(matches!(judge_passthrough(&sent, &spoiled), Verdict::Fail { .. }));
    assert_eq!(
        judge_passthrough(&sent, &vec![]),
        fail("produced 40 byte(s) of gzip batch and got 0 back")
    );
    assert_eq!(
        judge_silence(&vec![1, 2]),
        fail("the answer after an acks=0 produce is 2 byte(s)")
    );
}

#[test]
fn transactions_are_judged() {
    let read = |stable: i64, aborted: Vec<i64>, records: Vec<u8>| FetchedRow {
        error: code(0),
        high_watermark: 4,
        last_stable_offset: stable,
        aborted: Some(aborted),
        records: Some(records),
    };
    assert_eq!(judge_held(&read(0, vec![], vec![])), Verdict::Pass);
    assert!(matches!(judge_held(&read(4, vec![], vec![])), Verdict::Fail { .. }));
    let commit = |row: Option<&FetchedRow>| judge_commit(row, 0, 9, 60_000_000_000);
    assert_eq!(commit(Some(&read(3, vec![], vec![1]))), Verdict::Pass);
    assert_eq!(
        commit(None),
        fail(
            "the commit was acknowledged but nothing was readable at 0 within 60s: every \
             read_committed fetch was refused, so the commit marker never landed"
        )
    );
    for bad in [read(0, vec![], vec![1]), read(3, vec![9], vec![1]), read(3, vec![], vec![])] {
        assert!(matches!(commit(Some(&bad)), Verdict::Fail { .. }));
    }
    let zombie = |error| judge_zombie(&ProducedRow { error: code(error), base_offset: 0 }, 0, 1);
    assert_eq!(zombie(90), Verdict::Pass);
    assert!(matches!(zombie(0), Verdict::Fail { .. }));
    assert!(matches!(zombie(3), Verdict::Fail { .. }));
}

#[test]
fn sasl_messages_are_judged() {
    let first = "r=abc,s=c2FsdA==,i=4096".to_owned();
    assert_eq!(scram_attr(&first, 's').as_deref(), Some("c2FsdA=="));
    assert_eq!(scram_attr(&first, 'x'), None);
    assert_eq!(judge_cost(&first), Verdict::Pass);
    assert_eq!(
        judge_cost(&"r=abc,s=,i=1".to_owned()),
        fail("server-first states no salt: \"r=abc,s=,i=1\"")
    );
    assert_eq!(
        judge_cost(&"s=x,i=many".to_owned()),
        fail("server-first states no iteration count: \"s=x,i=many\"")
    );
    assert!(matches!(
        judge_cost(&"s=x,i=4095".to_owned()),
        Verdict::Fail { details } if details.starts_with("server asks for 4095 iterations; ")
    ));
    let last = "v=x".to_owned();
    assert_eq!(judge_proof(&ScramProof::Good, &last), Verdict::Pass);
    assert!(matches!(judge_proof(&ScramProof::Unsigned, &last), Verdict::Fail { .. }));
    assert_eq!(
        judge_proof(&ScramProof::Bad("off".to_owned()), &last),
        fail("server signature does not verify: off")
    );
    assert!(matches!(judge_metadata(&None), Verdict::Fail { .. }));
    assert!(matches!(judge_metadata(&Some("other".to_owned())), Verdict::Fail { .. }));
}

#[test]
fn the_probe_batch_has_shape() {
    let stamp = BatchStamp {
        producer_id: 9,
        producer_epoch: 2,
        base_sequence: 4,
        transactional: true,
    };
    let batch = probe_batch(stamp);
    assert_eq!((batch.producer_id, batch.producer_epoch, batch.base_sequence), (9, 2, 4));
    assert_eq!((batch.attributes, batch.last_offset_delta), (16, 1));
    match &batch.records {
        Records::Plain(records) => {
            assert_eq!(records.len(), 2);
            assert_eq!(records[0].key.as_deref(), Some(&b"probe-key"[..]));
            assert_eq!(records[0].headers[0].key, "origin");
            assert_eq!(records[1].value, None);
        }
        Records::Compressed { .. } => unreachable!(),
    }
    assert_eq!(batch_record_count(&batch), 2);
    let other: RecordBatch = gzip_batch(vec![1, 2, 3]);
    assert_eq!(other.attributes, 1);
    assert_eq!(count_records(&vec![batch, other]), 4);
}

#[test]
fn gzip_is_undone_by_a_gzip_reader() {
    let plain: Vec<u8> = b"odradek odradek odradek odradek odradek odradek".to_vec();
    let squeezed = gzip_records(&plain).unwrap();
    assert_eq!(squeezed[..2], [0x1f, 0x8b]);
    assert_ne!(squeezed, plain);
    let mut back = Vec::new();
    flate2::read::GzDecoder::new(squeezed.as_slice()).read_to_end(&mut back).unwrap();
    assert_eq!(back, plain);
    assert!(payload(Ok(squeezed), 3).is_ok());
    assert!(payload(Err("full".to_owned()), 3).is_err());
}

#[test]
fn lines_are_put_together() {
    let said = text::line("a ")
        .num(-12)
        .lit(" ")
        .count(34)
        .lit(" ")
        .quote("q\n\u{1}")
        .lit(" ")
        .wait(1_500_000_000)
        .lit(" ")
        .nums(&vec![1, -2])
        .lit(" ")
        .hexes(&[0, 255])
        .done();
    assert_eq!(said, "a -12 34 \"q\\n\\u{1}\" 1.5s [1, -2] [00, ff]");
    assert_eq!(hex_text(&[1, 0xfe]), "01fe");
    assert_eq!(join(&vec!["a".to_owned(), "b".to_owned()], "; "), "a; b");
    assert_eq!(split_commas("a,,b"), vec!["a", "", "b"]);
    assert_eq!(split_commas(""), vec![""]);
    assert!(contains_text("missing field", "ing f") && !contains_text("a", "ab"));
    assert!(same_text("é", "é") && !same_text("a", "b"));
}

#[test]
fn numbers_are_read_as_a_broker_writes_them() {
    assert_eq!(read_u32("4096"), Some(4096));
    assert_eq!(read_u32("+1"), Some(1));
    assert_eq!(read_u32("4294967295"), Some(u32::MAX));
    for bad in ["", "+", "-1", "4294967296", "1 ", "x"] {
        assert_eq!(read_u32(bad), None, "{bad:?}");
    }
}

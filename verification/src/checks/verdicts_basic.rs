//! When a subject passes the checks on versions, metadata and topics, said of the
//! answers it gave.

use vstd::prelude::*;

use crate::checks::batch;
use crate::checks::calibration;
use crate::checks::ctx;
use crate::checks::ctx::ServerCtx;
use crate::checks::find;
use crate::checks::flows;
use crate::checks::flows::{Addressing, ProducedView};
use crate::checks::server::ServerCheck;
use crate::checks::server_basic;
use crate::checks::server_versions;
use crate::checks::server_versions::SweepView;
use crate::checks::tape;
use crate::checks::tape::{Event, HaltView};
use crate::checks::txn_flows;
use crate::checks::verdicts;
use crate::text;
use crate::wire;
use crate::wire::{
    ApiVersion, ApiVersionsAnswer, BrokerRow, CreatedRow, ErrorCode, MetadataAnswer, Response,
    TopicId, TopicRow,
};
use crate::VerdictView;

verus! {

/// Whether a list of versions states those of an api, first at a place.
pub open spec fn states(keys: Seq<ApiVersion>, api_key: i16, j: int) -> bool {
    &&& 0 <= j < keys.len()
    &&& keys[j].api_key == api_key
    &&& forall|k: int| 0 <= k < j ==> (#[trigger] keys[k]).api_key != api_key
}

proof fn lemma_stated(keys: Seq<ApiVersion>, api_key: i16, j: int)
    requires
        states(keys, api_key, j),
    ensures
        ctx::spec_advertised(keys, api_key) == Some((keys[j].min_version, keys[j].max_version)),
    decreases keys.len(),
{
    if j > 0 {
        assert(keys[0].api_key != api_key);
        let rest = keys.skip(1);
        assert forall|k: int| 0 <= k < j - 1 implies (#[trigger] rest[k]).api_key != api_key by {
            assert(rest[k] == keys[k + 1]);
        }
        assert(rest[j - 1] == keys[j]);
        lemma_stated(rest, api_key, j - 1);
    }
}

proof fn lemma_unstated(keys: Seq<ApiVersion>, api_key: i16)
    requires
        forall|k: int| 0 <= k < keys.len() ==> (#[trigger] keys[k]).api_key != api_key,
    ensures
        ctx::spec_advertised(keys, api_key) is None,
    decreases keys.len(),
{
    if keys.len() > 0 {
        assert(keys[0].api_key != api_key);
        let rest = keys.skip(1);
        assert forall|k: int| 0 <= k < rest.len() implies (#[trigger] rest[k]).api_key
            != api_key by {
            assert(rest[k] == keys[k + 1]);
        }
        lemma_unstated(rest, api_key);
    }
}

/// The first ApiVersions answer: a pass exactly if it has no error, no range
/// that is upside down, and a range of its own that starts at 0 or below.
pub proof fn law_first_versions_are_judged(answer: ApiVersionsAnswer, j: int)
    ensures
        ({
            let verdict = server_basic::spec_judge_v0(answer);
            let keys = answer.api_keys@;
            let upright = forall|k: int|
                0 <= k < keys.len() ==> (#[trigger] keys[k]).min_version <= keys[k].max_version;
            &&& states(keys, 18, j) ==> if answer.error.code == 0 && upright && keys[j].min_version
                <= 0 {
                verdict == VerdictView::Pass
            } else {
                verdict is Fail
            }
            &&& (forall|k: int| 0 <= k < keys.len() ==> (#[trigger] keys[k]).api_key != 18)
                ==> verdict is Fail
        }),
{
    let keys = answer.api_keys@;
    let inverted = server_basic::inverted();
    calibration::lemma_first_where(keys, inverted);
    match find::first_where(keys, inverted) {
        Some(v) => {
            let k = choose|k: int| 0 <= k < keys.len() && keys[k] == v;
            assert(keys[k].min_version > keys[k].max_version);
        },
        None => {
            assert forall|k: int| 0 <= k < keys.len() implies (#[trigger] keys[k]).min_version
                <= keys[k].max_version by {
                assert(!inverted(keys[k]));
            }
        },
    }
    if states(keys, 18, j) {
        lemma_stated(keys, 18, j);
    }
    if forall|k: int| 0 <= k < keys.len() ==> (#[trigger] keys[k]).api_key != 18 {
        lemma_unstated(keys, 18);
    }
}

/// That check, the echo of an unusual number, and the flexible answer each come
/// to what their one answer deserves: the first to its judgement, the second to
/// a pass, the third to a pass exactly if it has no error.
pub proof fn law_version_checks_are_judged(
    ctx: ServerCtx,
    tape: Seq<Event>,
    conn: usize,
    answer: ApiVersionsAnswer,
)
    requires
        tape.len() == 2,
        tape[0] == Event::Connected(conn),
        verdicts::answer_at(tape, 1) == Some(Response::ApiVersions(answer)),
    ensures
        verdicts::ended(ServerCheck::V0Basic.spec_flow(ctx, tape)) == Some(
            (server_basic::spec_judge_v0(answer), 2int),
        ),
        verdicts::is_ruled(ServerCheck::CorrelationEcho.spec_flow(ctx, tape), true),
        server_basic::spec_flexible_max(ctx) is Ok ==> verdicts::is_ruled(
            ServerCheck::FlexibleV3.spec_flow(ctx, tape),
            answer.error.code == 0,
        ),
        server_basic::spec_flexible_max(ctx) matches Ok(max) ==> verdicts::ended(
            ServerCheck::UnsupportedVersion.spec_flow(ctx, tape),
        ) == Some((server_basic::spec_judge_unsupported(answer, max), 2int)),
{
}

/// A version that is not supported: a pass exactly if it is refused as such, in
/// an answer whose own range ends where the first one's did.
pub proof fn law_unsupported_versions_are_judged(answer: ApiVersionsAnswer, max: i16, j: int)
    ensures
        ({
            let verdict = server_basic::spec_judge_unsupported(answer, max);
            let keys = answer.api_keys@;
            &&& states(keys, 18, j) ==> if answer.error.code == 35 && keys[j].max_version == max {
                verdict == VerdictView::Pass
            } else {
                verdict is Fail
            }
            &&& (forall|k: int| 0 <= k < keys.len() ==> (#[trigger] keys[k]).api_key != 18)
                ==> verdict is Fail
        }),
{
    let keys = answer.api_keys@;
    if states(keys, 18, j) {
        lemma_stated(keys, 18, j);
    }
    if forall|k: int| 0 <= k < keys.len() ==> (#[trigger] keys[k]).api_key != 18 {
        lemma_unstated(keys, 18);
    }
}

/// Whether an answer that names no topics has brokers, no two with one id, each
/// with a host and a port.
pub open spec fn is_sound(answer: MetadataAnswer) -> bool {
    &&& answer.brokers@.len() > 0
    &&& forall|i: int, j: int|
        0 <= i < j < answer.brokers@.len() ==> (#[trigger] answer.brokers@[i]).node_id != (
        #[trigger] answer.brokers@[j]).node_id
    &&& forall|i: int|
        0 <= i < answer.brokers@.len() ==> (#[trigger] answer.brokers@[i]).host@.len() > 0 && 1
            <= answer.brokers@[i].port <= 65535
    &&& answer.topics@.len() == 0
}

/// The shape of a Metadata answer: a pass exactly if it is sound.
pub proof fn law_metadata_shapes_are_judged(answer: MetadataAnswer)
    ensures
        ({
            let verdict = server_basic::spec_metadata_shape(answer);
            if is_sound(answer) {
                verdict == VerdictView::Pass
            } else {
                verdict is Fail
            }
        }),
{
    let brokers = answer.brokers@;
    let ids = server_basic::node_ids(brokers);
    assert forall|i: int| 0 <= i < brokers.len() implies ids[i] == (
    #[trigger] brokers[i]).node_id by {}
    if find::all_different(ids) {
        assert forall|i: int, j: int| 0 <= i < j < brokers.len() implies (
        #[trigger] brokers[i]).node_id != (#[trigger] brokers[j]).node_id by {
            assert(ids[i] != ids[j]);
        }
    } else {
        let (i, j) = choose|i: int, j: int| 0 <= i < j < ids.len() && ids[i] == ids[j];
        assert(brokers[i].node_id == brokers[j].node_id);
    }
    let unreachable = server_basic::unreachable_broker();
    calibration::lemma_first_where(brokers, unreachable);
    match find::first_where(brokers, unreachable) {
        Some(b) => {
            let i = choose|i: int| 0 <= i < brokers.len() && brokers[i] == b;
            assert(unreachable(brokers[i]));
        },
        None => {
            assert forall|i: int| 0 <= i < brokers.len() implies (
            #[trigger] brokers[i]).host@.len() > 0 && 1 <= brokers[i].port <= 65535 by {
                assert(!unreachable(brokers[i]));
            }
        },
    }
}

proof fn lemma_metadata_swept(
    ctx: ServerCtx,
    tape: Seq<Event>,
    at: int,
    versions: Seq<i16>,
    i: int,
    k: int,
)
    requires
        0 <= i <= versions.len(),
    ensures
        server_basic::spec_metadata_sweep(ctx, tape, at, versions, i) matches Ok(
            (VerdictView::Pass, to),
        ) ==> {
            &&& to == at + 2 * (versions.len() - i)
            &&& 0 <= k < versions.len() - i ==> (verdicts::answer_at(
                tape,
                at + 2 * k + 1,
            ) matches Some(Response::Metadata(answer)) && is_sound(answer))
        },
    decreases versions.len() - i,
{
    if i < versions.len() {
        match verdicts::answer_at(tape, at + 1) {
            Some(Response::Metadata(answer)) => {
                law_metadata_shapes_are_judged(answer);
            },
            _ => {},
        }
        lemma_metadata_swept(ctx, tape, at + 2, versions, i + 1, k - 1);
        assert(at + 2 * k + 1 == at + 2 + 2 * (k - 1) + 1);
    }
}

/// A pass of the metadata check rests on one sound answer for every version.
#[verifier::rlimit(60)]
#[verifier::spinoff_prover]
pub proof fn law_metadata_shapes_pass(
    ctx: ServerCtx,
    tape: Seq<Event>,
    versions: Seq<i16>,
    k: int,
    to: int,
)
    requires
        verdicts::passed(ServerCheck::MetadataBasic, ctx, tape, to),
        ctx.spec_versions(0, "Metadata"@, wire::METADATA, 1, ctx.schema.metadata.max) == Ok::<
            Seq<i16>,
            HaltView,
        >(versions),
        0 <= k < versions.len(),
    ensures
        to == 2 * versions.len(),
        verdicts::answer_at(tape, 2 * k + 1) matches Some(Response::Metadata(answer)) && is_sound(
            answer,
        ),
{
    lemma_metadata_swept(ctx, tape, 0, versions, 0, k);
}

/// A topic that does not exist: where its first row is at a known place, a pass
/// exactly if that row says so; where it has none, a failure.
pub proof fn law_unknown_topics_are_judged(answer: MetadataAnswer, topic: Seq<char>, j: int)
    ensures
        ({
            let verdict = server_basic::spec_judge_unknown_topic(answer, topic);
            &&& names(answer.topics@, topic, j) ==> if answer.topics@[j].error.code == 3 {
                verdict == VerdictView::Pass
            } else {
                verdict is Fail
            }
            &&& names_none(answer.topics@, topic) ==> verdict is Fail
        }),
{
    lemma_named(answer.topics@, topic, j);
}

/// Whether a topic's first row is at a place.
pub open spec fn names(topics: Seq<TopicRow>, topic: Seq<char>, j: int) -> bool {
    &&& 0 <= j < topics.len()
    &&& topics[j].name matches Some(name) && name@ == topic
    &&& forall|k: int|
        0 <= k < j ==> !((#[trigger] topics[k]).name matches Some(name) && name@ == topic)
}

/// Whether a topic has no row.
pub open spec fn names_none(topics: Seq<TopicRow>, topic: Seq<char>) -> bool {
    forall|k: int|
        0 <= k < topics.len() ==> !((#[trigger] topics[k]).name matches Some(name) && name@
            == topic)
}

proof fn lemma_named(topics: Seq<TopicRow>, topic: Seq<char>, j: int)
    ensures
        names(topics, topic, j) ==> find::first_where(topics, find::is_named(topic)) == Some(
            topics[j],
        ),
        names_none(topics, topic) ==> find::first_where(topics, find::is_named(topic)) is None,
{
    let named = find::is_named(topic);
    if names(topics, topic, j) {
        assert forall|k: int| 0 <= k < j implies !named(#[trigger] topics[k]) by {}
        verdicts::lemma_first_is(topics, named, j);
    }
    if names_none(topics, topic) {
        assert forall|k: int| 0 <= k < topics.len() implies !named(#[trigger] topics[k]) by {}
        verdicts::lemma_first_is_none(topics, named);
    }
}

/// Whether some row of a Metadata answer is a topic's and has an error code.
pub open spec fn says_of(answer: MetadataAnswer, topic: Seq<char>, code: i16) -> bool {
    exists|j: int|
        0 <= j < answer.topics@.len() && (#[trigger] answer.topics@[j]).error.code == code && (
        answer.topics@[j].name matches Some(name) && name@ == topic)
}

proof fn lemma_says(answer: MetadataAnswer, topic: Seq<char>)
    ensures
        match find::first_where(answer.topics@, find::is_named(topic)) {
            Some(entry) => says_of(answer, topic, entry.error.code),
            None => names_none(answer.topics@, topic),
        },
{
    let named = find::is_named(topic);
    calibration::lemma_first_where(answer.topics@, named);
    match find::first_where(answer.topics@, named) {
        Some(entry) => {
            let j = choose|j: int| 0 <= j < answer.topics@.len() && answer.topics@[j] == entry;
            assert(named(answer.topics@[j]));
        },
        None => {
            assert forall|k: int| 0 <= k < answer.topics@.len() implies !((
            #[trigger] answer.topics@[k]).name matches Some(name) && name@ == topic) by {
                assert(!named(answer.topics@[k]));
            }
        },
    }
}

/// A pass of the unknown topic's check rests on the last answer, which says of a
/// topic that it is not known.
#[verifier::rlimit(60)]
#[verifier::spinoff_prover]
pub proof fn law_unknown_topics_pass(ctx: ServerCtx, tape: Seq<Event>, to: int)
    requires
        verdicts::passed(ServerCheck::MetadataUnknownTopic, ctx, tape, to),
    ensures
        verdicts::answer_at(tape, to - 1) matches Some(Response::Metadata(answer))
            && exists|topic: Seq<char>| #[trigger] says_of(answer, topic, 3),
{
    let (topic, _) = ctx::spec_fresh_topic(ctx, tape, 0, "nosuch"@)->Ok_0;
    match verdicts::answer_at(tape, to - 1) {
        Some(Response::Metadata(answer)) => {
            lemma_says(answer, topic);
        },
        _ => {},
    }
}

/// The code of the first topic that was answered as created.
pub open spec fn created_at(tape: Seq<Event>, i: int) -> Option<i16> {
    match verdicts::answer_at(tape, i) {
        Some(Response::CreateTopics(rows)) => if rows@.len() > 0 {
            Some(rows@[0].error.code)
        } else {
            None
        },
        _ => None,
    }
}

/// A topic that is created twice passes exactly if the second time is refused as
/// such.
pub proof fn law_duplicates_are_judged(code: ErrorCode)
    ensures
        server_basic::spec_judge_duplicate(code) is Pass <==> code.code == 36,
        server_basic::spec_judge_duplicate(code) is Fail <==> code.code != 36,
{
}

/// A pass of that check rests on two answers: one that created the topic, and the
/// last, which says that it exists.
#[verifier::rlimit(60)]
#[verifier::spinoff_prover]
pub proof fn law_duplicates_pass(ctx: ServerCtx, tape: Seq<Event>, to: int)
    requires
        verdicts::passed(ServerCheck::CreateTopicsDuplicate, ctx, tape, to),
    ensures
        created_at(tape, to - 1) == Some(36i16),
        exists|i: int| #[trigger] created_at(tape, i) == Some(0i16),
{
    let (_, ready) = server_basic::spec_creating(ctx, tape, "dup"@)->Ok_0;
    let (version, conn, topic) = server_basic::spec_creating(ctx, tape, "dup"@)->Ok_0.0;
    let (_, once) = flows::spec_create_topic(
        ctx,
        tape,
        ready,
        conn,
        version,
        topic,
        false,
        96,
    )->Ok_0;
    assert(created_at(tape, once - 1) == Some(0i16));
}

/// A topic that is created once it was validated passes exactly if it is
/// created.
pub proof fn law_validations_are_judged(code: ErrorCode)
    ensures
        server_basic::spec_judge_validated(code) is Pass <==> code.code == 0,
        server_basic::spec_judge_validated(code) is Fail <==> code.code != 0,
{
}

/// A pass of that check rests on the last answer, which created the topic.
#[verifier::rlimit(60)]
#[verifier::spinoff_prover]
pub proof fn law_validations_pass(ctx: ServerCtx, tape: Seq<Event>, to: int)
    requires
        verdicts::passed(ServerCheck::CreateTopicsValidateOnly, ctx, tape, to),
    ensures
        created_at(tape, to - 1) == Some(0i16),
{
}

/// A number of replicas that cannot be had passes exactly if it is refused,
/// whatever the code.
pub proof fn law_overreplication_is_judged(rows: Seq<CreatedRow>, topic: Seq<char>)
    ensures
        ({
            let verdict = server_basic::spec_judge_overreplicated(rows, topic);
            if rows.len() > 0 && rows[0].error.code != 0 {
                verdict == VerdictView::Pass
            } else {
                verdict is Fail
            }
        }),
{
}

/// A pass of that check rests on the last answer, which has an error.
#[verifier::rlimit(60)]
#[verifier::spinoff_prover]
pub proof fn law_overreplication_passes(ctx: ServerCtx, tape: Seq<Event>, to: int)
    requires
        verdicts::passed(ServerCheck::CreateTopicsImpossibleReplication, ctx, tape, to),
    ensures
        created_at(tape, to - 1) matches Some(code) && code != 0,
{
}

/// Whether a broker has an id.
pub open spec fn knows(brokers: Seq<BrokerRow>, node_id: i32) -> bool {
    exists|i: int| 0 <= i < brokers.len() && (#[trigger] brokers[i]).node_id == node_id
}

/// The leaders of a topic whose first row is at a known place: nothing is judged
/// without brokers; otherwise a pass exactly if the row has no error, has
/// partitions, and each of them without an error is led by a broker of the same
/// answer.
pub proof fn law_leaders_are_judged(answer: MetadataAnswer, topic: Seq<char>, j: int)
    ensures
        ({
            let verdict = server_basic::spec_judge_leaders(answer, topic);
            &&& verdict is Skipped <==> answer.brokers@.len() == 0
            &&& answer.brokers@.len() > 0 && names(answer.topics@, topic, j) ==> {
                let rows = answer.topics@[j].partitions@;
                if answer.topics@[j].error.code == 0 && rows.len() > 0 && forall|k: int|
                    0 <= k < rows.len() && (#[trigger] rows[k]).error.code == 0 ==> knows(
                        answer.brokers@,
                        rows[k].leader_id,
                    ) {
                    verdict == VerdictView::Pass
                } else {
                    verdict is Fail
                }
            }
            &&& answer.brokers@.len() > 0 && names_none(answer.topics@, topic) ==> verdict is Fail
        }),
{
    lemma_named(answer.topics@, topic, j);
    let ids = server_basic::node_ids(answer.brokers@);
    assert forall|id: i32| #[trigger] ids.contains(id) == knows(answer.brokers@, id) by {
        if ids.contains(id) {
            let i = choose|i: int| 0 <= i < ids.len() && ids[i] == id;
            assert(answer.brokers@[i].node_id == id);
        }
        if knows(answer.brokers@, id) {
            let i = choose|i: int|
                0 <= i < answer.brokers@.len() && (#[trigger] answer.brokers@[i]).node_id == id;
            assert(ids[i] == id);
        }
    }
    if names(answer.topics@, topic, j) {
        let rows = answer.topics@[j].partitions@;
        let strange = server_basic::led_by_stranger(ids);
        calibration::lemma_first_where(rows, strange);
        match find::first_where(rows, strange) {
            Some(p) => {
                let k = choose|k: int| 0 <= k < rows.len() && rows[k] == p;
                assert(strange(rows[k]));
            },
            None => {
                assert forall|k: int|
                    0 <= k < rows.len() && (#[trigger] rows[k]).error.code == 0 implies knows(
                    answer.brokers@,
                    rows[k].leader_id,
                ) by {
                    assert(!strange(rows[k]));
                    assert(ids.contains(rows[k].leader_id) == knows(
                        answer.brokers@,
                        rows[k].leader_id,
                    ));
                }
            },
        }
    }
}

/// That check comes to what its last answer deserves.
#[verifier::rlimit(60)]
#[verifier::spinoff_prover]
pub proof fn law_leader_check_is_judged(
    ctx: ServerCtx,
    tape: Seq<Event>,
    produced: ProducedView,
    at: int,
    answer: MetadataAnswer,
)
    requires
        ctx.spec_version(0, "Metadata"@, wire::METADATA, 1, ctx.schema.metadata.max) is Ok,
        flows::spec_produce_flow(ctx, tape, 0, "leaderref"@, Addressing::Name) == Ok::<
            (ProducedView, int),
            HaltView,
        >((produced, at)),
        verdicts::answer_at(tape, at) == Some(Response::Metadata(answer)),
    ensures
        verdicts::ended(ServerCheck::MetadataLeaderIsAKnownBroker.spec_flow(ctx, tape)) == Some(
            (server_basic::spec_judge_leaders(answer, produced.topic), at + 1),
        ),
{
}

/// Whether an answer gives a topic an id that is not zero.
pub open spec fn identifies(
    tape: Seq<Event>,
    i: int,
    topic: Seq<char>,
    topic_id: Seq<u8>,
) -> bool {
    verdicts::answer_at(tape, i) matches Some(Response::Metadata(answer)) && topic_id
        != wire::zero_id() && exists|j: int|
        0 <= j < answer.topics@.len() && (#[trigger] answer.topics@[j]).topic_id@ == topic_id && (
        answer.topics@[j].name matches Some(name) && name@ == topic)
}

/// Whether all the answers of a stretch give a topic one id.
pub open spec fn keeps_id(
    tape: Seq<Event>,
    at: int,
    to: int,
    topic: Seq<char>,
    topic_id: Seq<u8>,
) -> bool {
    forall|i: int| at <= i < to ==> #[trigger] identifies(tape, i, topic, topic_id)
}

proof fn lemma_identified(
    tape: Seq<Event>,
    at: int,
    conn: usize,
    version: i16,
    topic: Seq<char>,
    asked: int,
    seen: Option<TopicId>,
)
    requires
        0 <= asked <= 3,
    ensures
        server_basic::spec_id_asks(tape, at, conn, version, topic, asked, seen) matches Ok(
            (_, to),
        ) ==> {
            &&& to == at + (3 - asked)
            &&& match seen {
                Some(id) => keeps_id(tape, at, to, topic, id@),
                None => asked < 3 ==> exists|id: Seq<u8>| #[trigger]
                    keeps_id(tape, at, to, topic, id),
            }
        },
    decreases 3 - asked,
{
    if asked < 3 {
        match verdicts::answer_at(tape, at) {
            Some(Response::Metadata(answer)) => {
                let named = find::is_named(topic);
                calibration::lemma_first_where(answer.topics@, named);
                match find::first_where(answer.topics@, named) {
                    Some(entry) => {
                        let j = choose|j: int|
                            0 <= j < answer.topics@.len() && answer.topics@[j] == entry;
                        assert(named(answer.topics@[j]));
                        if entry.topic_id@ != wire::zero_id() {
                            assert(identifies(tape, at, topic, entry.topic_id@));
                        }
                        let next = match seen {
                            Some(id) => Some(id),
                            None => Some(entry.topic_id),
                        };
                        lemma_identified(tape, at + 1, conn, version, topic, asked + 1, next);
                        match server_basic::spec_id_asks(
                            tape,
                            at,
                            conn,
                            version,
                            topic,
                            asked,
                            seen,
                        ) {
                            Ok((_, to)) => {
                                assert(keeps_id(tape, at + 1, to, topic, next->Some_0@));
                                assert(keeps_id(tape, at, to, topic, next->Some_0@));
                            },
                            Err(_) => {},
                        }
                    },
                    None => {},
                }
            },
            _ => {},
        }
    }
}

/// A pass of the stable id rests on the last three answers, which give the topic
/// one id.
#[verifier::rlimit(60)]
#[verifier::spinoff_prover]
pub proof fn law_stable_ids_pass(
    ctx: ServerCtx,
    tape: Seq<Event>,
    produced: ProducedView,
    at: int,
    to: int,
)
    requires
        verdicts::passed(ServerCheck::MetadataTopicIdIsStable, ctx, tape, to),
        flows::spec_produce_flow(ctx, tape, 0, "stableid"@, Addressing::Name) == Ok::<
            (ProducedView, int),
            HaltView,
        >((produced, at)),
    ensures
        to == at + 3,
        exists|id: Seq<u8>| #[trigger] keeps_id(tape, at, to, produced.topic, id),
{
    let version = ctx.spec_version(
        0,
        "Metadata"@,
        wire::METADATA,
        10,
        ctx.schema.metadata.max,
    )->Ok_0;
    lemma_identified(tape, at, produced.conn, version, produced.topic, 0, None);
}

proof fn lemma_gone(
    ctx: ServerCtx,
    tape: Seq<Event>,
    at: int,
    conn: usize,
    version: i16,
    topic: Seq<char>,
    attempt: int,
    last: Seq<char>,
)
    ensures
        server_basic::spec_gone_wait(
            ctx,
            tape,
            at,
            conn,
            version,
            topic,
            attempt,
            last,
        ) matches Ok((VerdictView::Pass, to)) ==> (verdicts::answer_at(tape, to - 1) matches Some(
            Response::Metadata(answer),
        ) && (names_none(answer.topics@, topic) || says_of(answer, topic, 3) || says_of(
            answer,
            topic,
            100,
        ))),
    decreases ctx.config.spec_settle_attempts() - attempt,
{
    if attempt < ctx.config.spec_settle_attempts() {
        match tape::spec_pause_between(tape, at, attempt) {
            Ok((_, paused)) => match verdicts::answer_at(tape, paused) {
                Some(Response::Metadata(answer)) => {
                    lemma_says(answer, topic);
                    match find::first_where(answer.topics@, find::is_named(topic)) {
                        Some(entry) => {
                            lemma_gone(
                                ctx,
                                tape,
                                paused + 1,
                                conn,
                                version,
                                topic,
                                attempt + 1,
                                entry.error.shown@,
                            );
                        },
                        None => {},
                    }
                },
                _ => {},
            },
            Err(_) => {},
        }
    }
}

/// A pass of the deletion's check rests on the last answer, which does not name
/// the topic or says that it is not known.
#[verifier::rlimit(60)]
#[verifier::spinoff_prover]
pub proof fn law_deletions_pass(
    ctx: ServerCtx,
    tape: Seq<Event>,
    produced: ProducedView,
    at: int,
    to: int,
)
    requires
        verdicts::passed(ServerCheck::DeleteTopicsRemovesTheTopic, ctx, tape, to),
        flows::spec_produce_flow(ctx, tape, 0, "delete"@, Addressing::Name) == Ok::<
            (ProducedView, int),
            HaltView,
        >((produced, at)),
    ensures
        verdicts::answer_at(tape, to - 1) matches Some(Response::Metadata(answer)) && (names_none(
            answer.topics@,
            produced.topic,
        ) || says_of(answer, produced.topic, 3) || says_of(answer, produced.topic, 100)),
{
    let version = ctx.spec_version(
        0,
        "Metadata"@,
        wire::METADATA,
        1,
        ctx.schema.metadata.max,
    )->Ok_0;
    let (_, found) = flows::spec_connect_to_controller(
        ctx,
        tape,
        at,
        produced.conn,
        version,
        861,
    )->Ok_0;
    lemma_gone(ctx, tape, found + 1, produced.conn, version, produced.topic, 0, ""@);
}

/// A deletion that is not answered as done: disabled, it is not judged; refused
/// otherwise, it fails, whatever Metadata would say next.
pub proof fn law_refused_deletions_are_judged(
    ctx: ServerCtx,
    tape: Seq<Event>,
    at: int,
    conn: usize,
    version: i16,
    topic: Seq<char>,
    codes: Seq<ErrorCode>,
)
    requires
        codes.len() > 0,
        codes[0].code != 0,
    ensures
        verdicts::ended(
            server_basic::spec_after_delete(ctx, tape, at, conn, version, topic, codes),
        ) matches Some((verdict, to)) && to == at && (verdict is Skipped <==> codes[0].code == 73)
            && (verdict is Fail <==> codes[0].code != 73),
{
}

/// A sweep of the versions: nothing is judged where nothing was swept; otherwise
/// a pass exactly if nothing failed.
pub proof fn law_sweeps_are_judged(sweep: SweepView)
    ensures
        ({
            let verdict = server_versions::spec_judge_sweep(sweep);
            &&& verdict is Skipped <==> sweep.swept.len() == 0
            &&& verdict is Pass <==> sweep.swept.len() > 0 && sweep.failures.len() == 0
            &&& verdict is Fail <==> sweep.swept.len() > 0 && sweep.failures.len() > 0
        }),
{
}

/// A sweep of the writes: it fails for as many versions as were not answered,
/// and where none failed each was answered in turn.
pub proof fn law_write_sweeps_are_answered(
    tape: Seq<Event>,
    at: int,
    addr: Seq<char>,
    topic: Seq<char>,
    versions: Seq<i16>,
    i: int,
    failures: Seq<Seq<char>>,
    k: int,
)
    requires
        0 <= i <= versions.len(),
    ensures
        server_versions::spec_sweep_produce(
            tape,
            at,
            addr,
            topic,
            versions,
            i,
            failures,
        ) matches Ok((failed, to)) ==> {
            &&& failures.len() <= failed.len() <= failures.len() + versions.len() - i
            &&& failed.len() == failures.len() ==> to == at + 3 * (versions.len() - i) && (0 <= k
                < versions.len() - i ==> verdicts::written_at(tape, at + 3 * k + 2) is Some)
        },
    decreases versions.len() - i,
{
    if i < versions.len() {
        match tape::spec_connect(tape, at, addr) {
            Ok((conn, connected)) => {
                let version = versions[i];
                match txn_flows::spec_produce_stamped(
                    tape,
                    connected,
                    conn,
                    version,
                    batch::spec_plain_stamp(),
                    topic,
                    server_versions::spec_sweep_correlation(1_600, version, 1),
                ) {
                    Ok((_, next)) => {
                        law_write_sweeps_are_answered(
                            tape,
                            next,
                            addr,
                            topic,
                            versions,
                            i + 1,
                            failures,
                            k - 1,
                        );
                        assert(at + 3 * k + 2 == at + 3 + 3 * (k - 1) + 2);
                    },
                    Err(HaltView::Broke(e, next)) => {
                        let more = failures.push(
                            "Produce v"@ + text::dec(version as int) + ": "@
                                + e.spec_details(),
                        );
                        law_write_sweeps_are_answered(
                            tape,
                            next,
                            addr,
                            topic,
                            versions,
                            i + 1,
                            more,
                            k,
                        );
                    },
                    Err(_) => {},
                }
            },
            Err(_) => {},
        }
    }
}

/// The flexible header: any Metadata answer that could be read passes, and one
/// that could not fails.
pub proof fn law_flexible_headers_are_judged(ctx: ServerCtx, tape: Seq<Event>, conn: usize)
    requires
        ctx.spec_version(0, "Metadata"@, wire::METADATA, 9, ctx.schema.metadata.max) is Ok,
        tape.len() == 2,
        tape[0] == Event::Connected(conn),
    ensures
        (verdicts::answer_at(tape, 1) matches Some(Response::Metadata(_))) ==> verdicts::is_ruled(
            ServerCheck::MetadataFlexibleHeader.spec_flow(ctx, tape),
            true,
        ),
        (tape[1] matches Event::Failed(e) && e@ is Violation) ==> verdicts::is_ruled(
            ServerCheck::MetadataFlexibleHeader.spec_flow(ctx, tape),
            false,
        ),
{
}

} // verus!

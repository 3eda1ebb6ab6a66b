//! What the checks make of the reference subject: it passes without faults,
//! and each fault is caught where it shows.
//!
//! Each law takes an answer as the suite reads it and says that it shows what
//! the subject's handler answers; what the check makes of it follows.

use vstd::prelude::*;
use vstd::string::*;

use crate::checks::ctx;
use crate::checks::find;
use crate::checks::server;
use crate::checks::server::Reading;
use crate::checks::server_basic;
use crate::checks::server_cluster;
use crate::checks::server_groups;
use crate::checks::server_txn;
use crate::subject::log;
use crate::subject::log::WriteTerms;
use crate::subject::offsets;
use crate::subject::replies::{ApiVersionsReplyView, MetadataReplyView, TopicReplyView};
use crate::subject::requests::{
    CommitPartitionView, CommitTopicView, MetadataAskView, NamedTopicView, NewTopicView,
    OffsetCommitAskView, ProducePartitionView,
};
use crate::subject::serve;
use crate::subject::serve::Asked;
use crate::subject::state;
use crate::subject::state::{ClusterView, LogView};
use crate::subject::topics;
use crate::subject::Fault;
use crate::wire;
use crate::wire::{
    ApiVersion, ApiVersionsAnswer, ErrorCode, FetchedRow, FindCoordinatorAnswer, MetadataAnswer,
    ProducedRow, RecordBatch, Schema, TopicRow, API_VERSIONS, PRODUCE,
};
use crate::VerdictView;

verus! {

/// Whether an answer is what a reader makes of the subject's ApiVersions.
pub open spec fn shows_api_versions(answer: ApiVersionsAnswer, reply: ApiVersionsReplyView) -> bool {
    answer.error.code == reply.error_code && answer.api_keys@ == reply.api_keys
}

/// A codec whose ranges are ranges, and that speaks ApiVersions from 0.
pub open spec fn is_sound(schema: Schema) -> bool {
    &&& schema.api_versions.min == 0
    &&& forall|i: int|
        0 <= i < topics::spec_advertised_keys(schema).len() ==> {
            let row = #[trigger] topics::spec_advertised_keys(schema)[i];
            row.min_version <= row.max_version
        }
}

pub proof fn lemma_first_where<T>(s: Seq<T>, p: spec_fn(T) -> bool)
    ensures
        match find::first_where(s, p) {
            Some(t) => p(t) && s.contains(t),
            None => forall|i: int| 0 <= i < s.len() ==> !p(#[trigger] s[i]),
        },
    decreases s.len(),
{
    if s.len() > 0 && !p(s[0]) {
        let rest = s.skip(1);
        lemma_first_where(rest, p);
        match find::first_where(rest, p) {
            Some(t) => {
                let k = choose|k: int| 0 <= k < rest.len() && rest[k] == t;
                assert(s[k + 1] == t);
            },
            None => {
                assert forall|i: int| 0 <= i < s.len() implies !p(#[trigger] s[i]) by {
                    if i > 0 {
                        assert(rest[i - 1] == s[i]);
                    }
                }
            },
        }
    } else if s.len() > 0 {
        assert(s[0] == s[0]);
    }
}

proof fn lemma_not_advertised(keys: Seq<ApiVersion>, api_key: i16)
    requires
        forall|i: int| 0 <= i < keys.len() ==> (#[trigger] keys[i]).api_key != api_key,
    ensures
        ctx::spec_advertised(keys, api_key) is None,
    decreases keys.len(),
{
    if keys.len() > 0 {
        assert forall|i: int| 0 <= i < keys.skip(1).len() implies (#[trigger] keys.skip(
            1,
        )[i]).api_key != api_key by {
            assert(keys.skip(1)[i] == keys[i + 1]);
        }
        lemma_not_advertised(keys.skip(1), api_key);
    }
}

proof fn lemma_kept_row(keys: Seq<ApiVersion>, p: spec_fn(ApiVersion) -> bool, k: int)
    requires
        0 <= k < keys.len(),
        p(keys[k]),
    ensures
        keys.filter(p).contains(keys[k]),
{
    keys.lemma_filter_contains(p, k);
}

/// The ranges that the subject advertises at a version it speaks, as
/// `api-versions/v0-basic` sees them: sound without faults, and unsound where
/// a range is inverted or ApiVersions itself is left out.
pub proof fn law_v0_basic_is_calibrated(
    answer: ApiVersionsAnswer,
    schema: Schema,
    faults: Seq<Fault>,
)
    requires
        is_sound(schema),
        shows_api_versions(answer, topics::spec_api_versions(schema, 0, faults)),
    ensures
        !faults.contains(Fault::OmitApiVersionsKey) && !faults.contains(
            Fault::InvertedVersionRange,
        ) ==> server_basic::spec_judge_v0(answer) == VerdictView::Pass,
        faults.contains(Fault::OmitApiVersionsKey) || faults.contains(Fault::InvertedVersionRange)
            ==> server_basic::spec_judge_v0(answer) is Fail,
{
    let all = topics::spec_advertised_keys(schema);
    let others = |k: ApiVersion| k.api_key != API_VERSIONS;
    let kept = if faults.contains(Fault::OmitApiVersionsKey) {
        all.filter(others)
    } else {
        all
    };
    assert(all[0].min_version <= all[0].max_version);
    assert(topics::spec_supported(schema, 0));
    let keys = topics::spec_api_keys(schema, true, faults);
    lemma_first_where(keys, server_basic::inverted());
    if faults.contains(Fault::InvertedVersionRange) {
        assert(topics::row_of(kept, PRODUCE, 0) is Some) by {
            if faults.contains(Fault::OmitApiVersionsKey) {
                lemma_kept_row(all, others, 1);
                let k = choose|k: int| 0 <= k < kept.len() && kept[k] == all[1];
                lemma_row_found(kept, PRODUCE, 0, k);
            } else {
                lemma_row_found(kept, PRODUCE, 0, 1);
            }
        }
        lemma_row_of(kept, PRODUCE, 0);
        let i = topics::row_of(kept, PRODUCE, 0)->Some_0;
        assert(keys[i].min_version == 12 && keys[i].max_version == 3);
        assert(server_basic::inverted()(keys[i]));
    } else if faults.contains(Fault::OmitApiVersionsKey) {
        broadcast use vstd::seq_lib::group_filter_ensures;

        assert forall|i: int| 0 <= i < kept.len() implies (#[trigger] kept[i]).api_key
            != API_VERSIONS by {
            assert(others(kept[i]));
        }
        lemma_not_advertised(kept, API_VERSIONS);
    } else {
        assert forall|i: int| 0 <= i < keys.len() implies !server_basic::inverted()(
            #[trigger] keys[i],
        ) by {
            assert(all[i].min_version <= all[i].max_version);
        }
    }
}

proof fn lemma_row_of(keys: Seq<ApiVersion>, api_key: i16, i: int)
    requires
        0 <= i <= keys.len(),
    ensures
        match topics::row_of(keys, api_key, i) {
            Some(k) => i <= k < keys.len() && keys[k].api_key == api_key,
            None => true,
        },
    decreases keys.len() - i,
{
    if i < keys.len() && keys[i].api_key != api_key {
        lemma_row_of(keys, api_key, i + 1);
    }
}

proof fn lemma_row_found(keys: Seq<ApiVersion>, api_key: i16, i: int, k: int)
    requires
        0 <= i <= k < keys.len(),
        keys[k].api_key == api_key,
    ensures
        topics::row_of(keys, api_key, i) is Some,
    decreases keys.len() - i,
{
    if keys[i].api_key != api_key {
        lemma_row_found(keys, api_key, i + 1, k);
    }
}

/// The answer to a version from the future, as
/// `api-versions/unsupported-version-error` sees it: the error with the range
/// advertised before, unless a fault withholds the one or changes the other.
pub proof fn law_unsupported_version_is_calibrated(
    answer: ApiVersionsAnswer,
    schema: Schema,
    api_version: i16,
    faults: Seq<Fault>,
)
    requires
        api_version > schema.api_versions.max,
        !faults.contains(Fault::OmitApiVersionsKey),
        shows_api_versions(answer, topics::spec_api_versions(schema, api_version, faults)),
    ensures
        !faults.contains(Fault::WrongErrorOnUnsupportedVersion) && !faults.contains(
            Fault::AdvertiseWrongMaxInError,
        ) ==> server_basic::spec_judge_unsupported(answer, schema.api_versions.max)
            == VerdictView::Pass,
        faults.contains(Fault::WrongErrorOnUnsupportedVersion) || faults.contains(
            Fault::AdvertiseWrongMaxInError,
        ) ==> server_basic::spec_judge_unsupported(answer, schema.api_versions.max) is Fail,
{
    let keys = topics::spec_api_keys(schema, false, faults);
    let all = topics::spec_advertised_keys(schema);
    if faults.contains(Fault::InvertedVersionRange) {
        lemma_row_found(all, PRODUCE, 0, 1);
        lemma_row_of(all, PRODUCE, 0);
    }
    assert(keys.len() == all.len());
    assert(keys[0].api_key == API_VERSIONS);
}

/// Whether an answer is what a reader makes of the subject's Metadata.
pub open spec fn shows_metadata(answer: MetadataAnswer, reply: MetadataReplyView) -> bool {
    &&& answer.brokers@.len() == reply.brokers.len()
    &&& forall|i: int|
        0 <= i < reply.brokers.len() ==> (#[trigger] answer.brokers@[i]).node_id
            == reply.brokers[i].node_id && answer.brokers@[i].host@ == reply.brokers[i].host
            && answer.brokers@[i].port == reply.brokers[i].port
    &&& answer.topics@.len() == reply.topics.len()
    &&& forall|i: int|
        0 <= i < reply.topics.len() ==> shows_topic(
            #[trigger] answer.topics@[i],
            reply.topics[i],
        )
}

/// Whether an entry is what a reader makes of one topic of it.
pub open spec fn shows_topic(entry: TopicRow, reply: TopicReplyView) -> bool {
    &&& wire::opt_view(entry.name) == reply.name
    &&& entry.error.code == reply.error_code
    &&& entry.topic_id@ == reply.topic_id
    &&& entry.partitions@.len() == reply.partitions.len()
    &&& forall|i: int|
        0 <= i < reply.partitions.len() ==> (#[trigger] entry.partitions@[i]).leader_id
            == reply.partitions[i].leader_id && entry.partitions@[i].error.code
            == reply.partitions[i].error_code
}

/// A cluster of brokers that can be reached, fewer than a thousand.
pub open spec fn is_reachable(state: ClusterView) -> bool {
    &&& 0 < state.ports.len() < 1000
    &&& forall|i: int|
        0 <= i < state.ports.len() ==> 1 <= #[trigger] state.ports[i] <= 65535
}

/// An answer to a request that names no topics, as `metadata/basic` sees it.
pub proof fn law_metadata_basic_is_calibrated(
    answer: MetadataAnswer,
    state: ClusterView,
    correlation_id: i32,
    node_id: i32,
    faults: Seq<Fault>,
)
    requires
        is_reachable(state),
        shows_metadata(
            answer,
            topics::spec_metadata(
                state,
                MetadataAskView { topics: Some(Seq::empty()) },
                correlation_id,
                node_id,
                faults,
            ),
        ),
    ensures
        !faults.contains(Fault::MetadataEmptyBrokers) && !faults.contains(
            Fault::MetadataUnrequestedTopic,
        ) ==> server_basic::spec_metadata_shape(answer) == VerdictView::Pass,
        faults.contains(Fault::MetadataEmptyBrokers) || faults.contains(
            Fault::MetadataUnrequestedTopic,
        ) ==> server_basic::spec_metadata_shape(answer) is Fail,
{
    let ask = MetadataAskView { topics: Some(Seq::empty()) };
    let brokers = topics::spec_brokers(state, faults);
    assert(topics::requested(ask.topics) =~= Seq::<Seq<char>>::empty());
    reveal_strlit("127.0.0.1");
    lemma_first_where(answer.brokers@, server_basic::unreachable_broker());
    if !faults.contains(Fault::MetadataEmptyBrokers) {
        assert forall|i: int| 0 <= i < answer.brokers@.len() implies !(
        server_basic::unreachable_broker())(#[trigger] answer.brokers@[i]) by {
            assert(answer.brokers@[i].port == brokers[i].port);
            assert(1 <= state.ports[i] <= 65535);
        }
        let ids = server_basic::node_ids(answer.brokers@);
        assert forall|i: int, j: int| 0 <= i < j < ids.len() implies ids[i] != ids[j] by {
            assert(answer.brokers@[i].node_id == brokers[i].node_id);
            assert(answer.brokers@[j].node_id == brokers[j].node_id);
        }
    }
}

pub proof fn lemma_one_name(name: Seq<char>)
    ensures
        topics::requested(Some(seq![NamedTopicView { name: Some(name) }])) == seq![name],
{
    let one = seq![NamedTopicView { name: Some(name) }];
    assert(one.drop_last() =~= Seq::empty());
    reveal_with_fuel(topics::named, 2);
    assert(topics::named(one) =~= seq![name]);
}

/// An answer that was asked about a topic that does not exist, as
/// `metadata/unknown-topic` sees it.
pub proof fn law_unknown_topic_is_calibrated(
    answer: MetadataAnswer,
    state: ClusterView,
    name: Seq<char>,
    correlation_id: i32,
    node_id: i32,
    faults: Seq<Fault>,
)
    requires
        !state.created.contains_key(name),
        shows_metadata(
            answer,
            topics::spec_metadata(
                state,
                MetadataAskView { topics: Some(seq![NamedTopicView { name: Some(name) }]) },
                correlation_id,
                node_id,
                faults,
            ),
        ),
    ensures
        !faults.contains(Fault::MetadataUnknownTopicOmitted)
            ==> server_basic::spec_judge_unknown_topic(answer, name) == VerdictView::Pass,
        faults.contains(Fault::MetadataUnknownTopicOmitted)
            ==> server_basic::spec_judge_unknown_topic(answer, name) is Fail,
{
    lemma_one_name(name);
    let names = seq![name];
    assert(names.drop_last() =~= Seq::empty());
    reveal_with_fuel(topics::answered_names, 2);
    lemma_first_where(answer.topics@, find::is_named(name));
    if !faults.contains(Fault::MetadataUnknownTopicOmitted) {
        assert(find::is_named(name)(answer.topics@[0]));
    }
}

/// An answer about a topic that exists, as
/// `metadata/leader-is-a-known-broker` sees it.
pub proof fn law_known_leader_is_calibrated(
    answer: MetadataAnswer,
    state: ClusterView,
    name: Seq<char>,
    correlation_id: i32,
    node_id: i32,
    unknown: bool,
)
    requires
        is_reachable(state),
        state.live().len() > 0,
        state.created.contains_key(name),
        shows_metadata(
            answer,
            topics::spec_metadata(
                state,
                MetadataAskView { topics: Some(seq![NamedTopicView { name: Some(name) }]) },
                correlation_id,
                node_id,
                if unknown {
                    seq![Fault::MetadataLeaderIsUnknown]
                } else {
                    Seq::empty()
                },
            ),
        ),
    ensures
        !unknown ==> server_basic::spec_judge_leaders(answer, name) == VerdictView::Pass,
        unknown ==> server_basic::spec_judge_leaders(answer, name) is Fail,
{
    let faults = if unknown {
        seq![Fault::MetadataLeaderIsUnknown]
    } else {
        Seq::empty()
    };
    assert(unknown ==> faults[0] == Fault::MetadataLeaderIsUnknown);
    lemma_one_name(name);
    let names = seq![name];
    assert(names.drop_last() =~= Seq::empty());
    reveal_with_fuel(topics::answered_names, 2);
    crate::subject::laws::law_placed_on_a_live_broker(state, name);
    let brokers = topics::spec_brokers(state, faults);
    let leader = state.placement(name);
    let ids = state.node_ids();
    let k = choose|k: int| 0 <= k < ids.len() && ids[k] == leader;
    let known = server_basic::node_ids(answer.brokers@);
    assert(answer.brokers@[k].node_id == brokers[k].node_id);
    assert(known[k] == leader);
    let entry = answer.topics@[0];
    assert(find::is_named(name)(entry));
    let rows = entry.partitions@;
    assert(rows.len() == 1);
    lemma_first_where(rows, server_basic::led_by_stranger(known));
    if unknown {
        assert forall|j: int| 0 <= j < known.len() implies known[j] <= 1000 by {
            assert(answer.brokers@[j].node_id == brokers[j].node_id);
        }
        assert(rows[0].leader_id == leader + 999);
        if known.contains(rows[0].leader_id) {
            let j = choose|j: int| 0 <= j < known.len() && known[j] == rows[0].leader_id;
            assert(answer.brokers@[j].node_id == brokers[j].node_id);
            assert(known[j] == state::spec_node_at(j));
        }
        assert(server_basic::led_by_stranger(known)(rows[0]));
    } else {
        assert(rows[0].leader_id == leader);
        assert(!server_basic::led_by_stranger(known)(rows[0]));
    }
}

/// A second creation of a topic, as `create-topics/duplicate` sees it, and
/// the creation that follows one that was only validated, as
/// `create-topics/validate-only` sees it.
pub proof fn law_creation_is_calibrated(
    state: ClusterView,
    topic: NewTopicView,
    code: ErrorCode,
    faults: Seq<Fault>,
)
    requires
        topic.replication_factor <= topics::broker_limit(state),
    ensures
        state.created.contains_key(topic.name) && code.code == topics::creation_code(
            state,
            topic,
            faults,
        ) ==> (if faults.contains(Fault::CreateTopicsDuplicateSucceeds) {
            server_basic::spec_judge_duplicate(code) is Fail
        } else {
            server_basic::spec_judge_duplicate(code) == VerdictView::Pass
        }),
        !state.created.contains_key(topic.name) && !faults.contains(
            Fault::CreateTopicsDuplicateSucceeds,
        ) && code.code == topics::creation_code(
            topics::after_create(
                state,
                topic,
                !faults.contains(Fault::CreateTopicsValidateOnlyCreates),
                faults,
            ),
            topic,
            faults,
        ) ==> (if faults.contains(Fault::CreateTopicsValidateOnlyCreates) {
            server_basic::spec_judge_validated(code) is Fail
        } else {
            server_basic::spec_judge_validated(code) == VerdictView::Pass
        }),
{
}

/// A commit with the probe's metadata and what is read back of it, as
/// `offsets/metadata-round-trips` sees it.
pub proof fn law_metadata_round_trip_is_calibrated(
    state: ClusterView,
    group: Seq<char>,
    topic: CommitTopicView,
    offset: i64,
    node_id: i32,
    drops: bool,
)
    requires
        state.placement(group) == node_id,
        topic.partitions == seq![
            CommitPartitionView {
                partition_index: 0,
                committed_offset: offset,
                committed_metadata: Some(server_groups::spec_probe_metadata()),
            },
        ],
    ensures
        ({
            let faults = if drops {
                seq![Fault::OffsetCommitDropsMetadata]
            } else {
                Seq::<Fault>::empty()
            };
            let ask = OffsetCommitAskView { group_id: group, topics: seq![topic] };
            let after = offsets::spec_offset_commit(state, ask, node_id, faults).0;
            let name = offsets::kept_under(state, topic.name, topic.topic_id);
            let row = offsets::spec_offset_row(after, group, name, 0, faults);
            &&& row.committed_offset == offset
            &&& !drops ==> server_groups::spec_judge_metadata(row.metadata) == VerdictView::Pass
            &&& drops ==> server_groups::spec_judge_metadata(row.metadata) is Fail
        }),
{
    let faults = if drops {
        seq![Fault::OffsetCommitDropsMetadata]
    } else {
        Seq::<Fault>::empty()
    };
    assert(drops ==> faults[0] == Fault::OffsetCommitDropsMetadata);
    let one = seq![topic];
    assert(one.drop_last() =~= Seq::empty());
    assert(topic.partitions.drop_last() =~= Seq::empty());
    reveal_with_fuel(offsets::commit_topics, 2);
    reveal_with_fuel(offsets::commit_partitions, 2);
}

/// A coordinator's answer for a group, as `find-coordinator/group` sees it.
pub proof fn law_find_coordinator_is_calibrated(
    answer: FindCoordinatorAnswer,
    state: ClusterView,
    group: Seq<char>,
    api_version: i16,
    node_id: i32,
    wrong_key: bool,
)
    requires
        is_reachable(state),
        state.live().len() > 0,
        api_version >= wire::FIND_COORDINATOR_BATCHED,
        ({
            let faults = if wrong_key {
                seq![Fault::FindCoordinatorWrongKey]
            } else {
                Seq::<Fault>::empty()
            };
            let reply = offsets::spec_coordinator(state, group, node_id, faults);
            &&& answer.coordinators@.len() == 1
            &&& answer.coordinators@[0].error.code == reply.error_code
            &&& answer.coordinators@[0].key@ == reply.key
            &&& answer.coordinators@[0].host@ == reply.host
            &&& answer.coordinators@[0].port == reply.port
        }),
    ensures
        !wrong_key ==> server_groups::spec_judge_coordinator(answer, api_version, group)
            == VerdictView::Pass,
        wrong_key ==> server_groups::spec_judge_coordinator(answer, api_version, group) is Fail,
{
    let faults = if wrong_key {
        seq![Fault::FindCoordinatorWrongKey]
    } else {
        Seq::<Fault>::empty()
    };
    assert(wrong_key ==> faults[0] == Fault::FindCoordinatorWrongKey);
    reveal_strlit("127.0.0.1");
    reveal_strlit("-not-yours");
    crate::subject::laws::law_placed_on_a_live_broker(state, group);
    let ids = state.node_ids();
    let owner = state.placement(group);
    let k = choose|k: int| 0 <= k < ids.len() && ids[k] == owner;
    assert(state.port_of(owner) == state.ports[k]);
    if wrong_key {
        assert(group.len() != (group + "-not-yours"@).len());
    }
}

/// A frame's correlation id and what follows its body, as every exchange sees
/// them: an echo that is off and bytes left over are violations, whatever
/// else the frame holds.
pub proof fn law_frames_are_calibrated(
    asked: Asked,
    schema: Schema,
    reading: Reading,
    decode_at: i16,
    faults: Seq<Fault>,
)
    requires
        ({
            let framing = serve::spec_api_versions_framing(asked, schema, faults);
            &&& reading.echoed == Some(framing.correlation_id)
            &&& reading.trailing == serve::spec_garbage(framing.trailing_garbage).len()
        }),
        reading.header is Ok,
        reading.body is Ok,
    ensures
        server::spec_judge_reading(asked.correlation_id, 0, decode_at, reading) is Ok <==> !(
        faults.contains(Fault::WrongCorrelationEcho) || faults.contains(Fault::TrailingGarbage)),
        server::spec_judge_reading(asked.correlation_id, 0, decode_at, reading) matches Err(e)
            ==> e is Violation,
{
    if faults.contains(Fault::WrongCorrelationEcho) {
        assert(asked.correlation_id.wrapping_add(1) != asked.correlation_id);
    }
}

/// A write of a superseded producer, as `txn/fenced-producer-cannot-produce`
/// sees it.
pub proof fn law_zombie_write_is_calibrated(
    log: LogView,
    partition: ProducePartitionView,
    batches: Seq<RecordBatch>,
    terms: WriteTerms,
    current: i16,
    row: ProducedRow,
    accepts: bool,
)
    requires
        partition.batches == Some(batches),
        batches.len() > 0,
        !log::is_stamped(batches[0]) || !log.last_batch.contains_key(batches[0].producer_id),
        terms.epoch == Some(current),
        batches[0].producer_epoch < current,
        ({
            let faults = if accepts {
                seq![Fault::ProduceAcceptsFencedEpoch]
            } else {
                Seq::<Fault>::empty()
            };
            let answer = log::spec_write(log, partition, terms, faults).1;
            answer is Some && row.error.code == answer->Some_0.error_code
        }),
    ensures
        !accepts ==> server_txn::spec_judge_zombie(row, batches[0].producer_epoch, current)
            == VerdictView::Pass,
        accepts ==> server_txn::spec_judge_zombie(row, batches[0].producer_epoch, current) is Fail,
{
    let faults = if accepts {
        seq![Fault::ProduceAcceptsFencedEpoch]
    } else {
        Seq::<Fault>::empty()
    };
    assert(accepts ==> faults[0] == Fault::ProduceAcceptsFencedEpoch);
}

/// A log with a transaction open, as
/// `txn/open-transaction-holds-the-stable-offset` sees it.
pub proof fn law_held_stable_offset_is_calibrated(
    log: LogView,
    producer_id: i64,
    row: FetchedRow,
    ignores: bool,
)
    requires
        log.open.dom().finite(),
        log.open.contains_key(producer_id),
        log.open[producer_id] < log.next_offset,
        row.high_watermark == log.next_offset,
        row.last_stable_offset == log::reported_stable(
            log,
            if ignores {
                seq![Fault::TxnStableOffsetIgnoresOpenTxn]
            } else {
                Seq::empty()
            },
        ),
    ensures
        !ignores ==> server_txn::spec_judge_held(row) == VerdictView::Pass,
        ignores ==> server_txn::spec_judge_held(row) is Fail,
{
    let faults = seq![Fault::TxnStableOffsetIgnoresOpenTxn];
    assert(faults[0] == Fault::TxnStableOffsetIgnoresOpenTxn);
    crate::subject::laws::law_stable_offset(log, producer_id);
}

/// What brokers say of a topic's leader, as
/// `cluster/brokers-agree-on-the-leader` sees it: each is asked once, and
/// says what its Metadata does.
pub proof fn law_leader_agreement_is_calibrated(
    state: ClusterView,
    name: Seq<char>,
    nodes: Seq<i32>,
    disagree: bool,
)
    requires
        nodes.len() >= 2,
        find::all_different(nodes),
    ensures
        ({
            let faults = if disagree {
                seq![Fault::BrokersDisagreeOnLeader]
            } else {
                Seq::<Fault>::empty()
            };
            let answers = nodes.map_values(
                |n: i32| (n, topics::reported_leader(state, name, n, faults)),
            );
            &&& !disagree ==> server_cluster::spec_judge_agreement(answers, name)
                == VerdictView::Pass
            &&& disagree ==> server_cluster::spec_judge_agreement(answers, name) is Fail
        }),
{
    let faults = if disagree {
        seq![Fault::BrokersDisagreeOnLeader]
    } else {
        Seq::<Fault>::empty()
    };
    assert(disagree ==> faults[0] == Fault::BrokersDisagreeOnLeader);
    let answers = nodes.map_values(|n: i32| (n, topics::reported_leader(state, name, n, faults)));
    let p = server_cluster::other_leader(answers[0].1);
    lemma_first_where(answers, p);
    if disagree {
        assert(answers[0].1 == nodes[0]);
        assert(answers[1].1 == nodes[1]);
        assert(nodes[0] != nodes[1]);
        assert(p(answers[1]));
    } else {
        assert forall|i: int| 0 <= i < answers.len() implies !p(#[trigger] answers[i]) by {
            assert(answers[i].1 == state.placement(name));
        }
    }
}

} // verus!

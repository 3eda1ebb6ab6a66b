//! What holds of the reference subject across its requests.

use vstd::prelude::*;
use vstd::string::*;

use crate::subject::groups;
use crate::subject::log;
use crate::subject::log::WriteTerms;
use crate::subject::offsets;
use crate::subject::requests::{
    CommitPartitionView, CommitTopicView, ConsumerGroupAskView, EndTxnAskView, FetchPartition,
    FetchTopicView, FindCoordinatorAskView, GivenAssignmentView, InitProducerIdAskView,
    JoinGroupAskView, LeaveGroupAskView, MetadataAskView, NewTopicView, OffsetCommitAskView,
    OffsetFetchAskView, OffsetGroupView, OffsetTopicView, ProducePartitionView, SyncGroupAskView,
    TxnOffsetsAskView,
};
use crate::subject::sasl;
use crate::subject::sasl::SaslView;
use crate::subject::serve;
use crate::subject::serve::{AnswerView, Asked, BodyView, RequestView};
use crate::subject::state;
use crate::subject::state::{ClusterView, CommitView, GroupView, LogView, OffsetKey};
use crate::subject::topics;
use crate::subject::txn;
use crate::subject::Fault;
use crate::wire;
use crate::wire::{
    RecordBatch, Schema, FENCED_MEMBER_EPOCH, ILLEGAL_GENERATION, ILLEGAL_SASL_STATE, NONE,
    NOT_COORDINATOR, OFFSET_FETCH_BATCHED, OUT_OF_ORDER_SEQUENCE_NUMBER, PRODUCER_FENCED,
    TOPIC_ALREADY_EXISTS, UNKNOWN_MEMBER_ID, UNKNOWN_TOPIC_OR_PARTITION, UNSET_OFFSET,
};

verus! {

/// Leadership and coordination are only ever assigned to brokers that are up:
/// as long as one is, no name is placed on a stopped broker.
pub proof fn law_placed_on_a_live_broker(state: ClusterView, key: Seq<char>)
    requires
        state.live().len() > 0,
    ensures
        !state.down.contains(state.placement(key)),
        state.node_ids().contains(state.placement(key)),
{
    let up = |id: i32| !state.down.contains(id);
    let live = state.live();
    let h = state::name_hash(vstd::utf8::encode_utf8(key)) as int;
    let i = h % (live.len() as int);
    assert(0 <= i < live.len()) by (nonlinear_arith)
        requires
            i == h % (live.len() as int),
            live.len() > 0,
    ;
    assert(live.contains(live[i]));
    state.node_ids().lemma_filter_contains_rev(up, live[i]);
    broadcast use vstd::seq_lib::group_filter_ensures;

    assert(up(live[i]));
}

/// Starting a stopped broker undoes the stop: nothing is lost with a broker.
pub proof fn law_start_undoes_stop(state: ClusterView, node_id: i32)
    requires
        !state.down.contains(node_id),
        !state.faults.contains(Fault::OffsetsDieWithTheirCoordinator),
    ensures
        state::spec_start(state::spec_stop(state, node_id), node_id) == state,
{
    assert(state.down.insert(node_id).remove(node_id) =~= state.down);
}

/// Committed offsets survive the broker that coordinated them; under the
/// fault, exactly those that the stopped broker coordinated are lost.
pub proof fn law_offsets_and_a_stopped_broker(state: ClusterView, node_id: i32, key: OffsetKey)
    ensures
        !state.faults.contains(Fault::OffsetsDieWithTheirCoordinator) ==> state::spec_stop(
            state,
            node_id,
        ).committed == state.committed,
        state.faults.contains(Fault::OffsetsDieWithTheirCoordinator)
            && state.committed.contains_key(key) ==> (state::spec_stop(
            state,
            node_id,
        ).committed.contains_key(key) <==> state::spec_placement_over(key.0, state.node_ids())
            != node_id),
{
}

/// Every broker answers Metadata and FindCoordinator the same, whichever is
/// asked.
pub proof fn law_brokers_agree(
    state: ClusterView,
    metadata: MetadataAskView,
    coordinator: FindCoordinatorAskView,
    correlation_id: i32,
    api_version: i16,
    a: i32,
    b: i32,
    faults: Seq<Fault>,
)
    requires
        !faults.contains(Fault::BrokersDisagreeOnLeader),
        !faults.contains(Fault::CoordinatorIsWhoeverAsked),
    ensures
        topics::spec_metadata(state, metadata, correlation_id, a, faults)
            == topics::spec_metadata(state, metadata, correlation_id, b, faults),
        offsets::spec_find_coordinator(state, coordinator, api_version, a, faults)
            == offsets::spec_find_coordinator(state, coordinator, api_version, b, faults),
{
    let at_a = topics::spec_topics(state, metadata, correlation_id, a, faults);
    let at_b = topics::spec_topics(state, metadata, correlation_id, b, faults);
    assert(at_a =~= at_b);
    let from_a = offsets::spec_find_coordinator(state, coordinator, api_version, a, faults);
    let from_b = offsets::spec_find_coordinator(state, coordinator, api_version, b, faults);
    assert(from_a.coordinators =~= from_b.coordinators);
}

/// Metadata names exactly the topics it was asked about, in order: those that
/// exist without an error, the others with one.
pub proof fn law_metadata_names_what_was_asked(
    state: ClusterView,
    ask: MetadataAskView,
    correlation_id: i32,
    node_id: i32,
    faults: Seq<Fault>,
)
    requires
        !faults.contains(Fault::MetadataUnknownTopicOmitted),
        !faults.contains(Fault::MetadataUnrequestedTopic),
    ensures
        ({
            let names = topics::requested(ask.topics);
            let answered = topics::spec_metadata(
                state,
                ask,
                correlation_id,
                node_id,
                faults,
            ).topics;
            &&& answered.len() == names.len()
            &&& forall|i: int|
                0 <= i < names.len() ==> (#[trigger] answered[i]).name == Some(names[i])
                    && answered[i].error_code == (if state.created.contains_key(names[i]) {
                    NONE
                } else {
                    UNKNOWN_TOPIC_OR_PARTITION
                })
        }),
{
    lemma_all_answered(state, topics::requested(ask.topics), faults);
}

proof fn lemma_all_answered(state: ClusterView, names: Seq<Seq<char>>, faults: Seq<Fault>)
    requires
        !faults.contains(Fault::MetadataUnknownTopicOmitted),
    ensures
        topics::answered_names(state, names, faults) == names,
    decreases names.len(),
{
    if names.len() > 0 {
        lemma_all_answered(state, names.drop_last(), faults);
        assert(names.drop_last().push(names.last()) =~= names);
    } else {
        assert(names =~= Seq::empty());
    }
}

/// The leader that Metadata names is a broker that is up and that the same
/// answer names, as long as one is up.
pub proof fn law_leader_can_be_reached(
    state: ClusterView,
    name: Seq<char>,
    correlation_id: i32,
    node_id: i32,
)
    requires
        state.created.contains_key(name),
        state.live().len() > 0,
    ensures
        ({
            let faults = Seq::<Fault>::empty();
            let topic = topics::spec_topic(state, name, correlation_id, node_id, faults);
            let leader = topic.partitions[0].leader_id;
            let brokers = topics::spec_brokers(state, faults);
            &&& !state.down.contains(leader)
            &&& exists|i: int| 0 <= i < brokers.len() && (#[trigger] brokers[i]).node_id == leader
            &&& topic.partitions[0].replica_nodes[0] == leader
        }),
{
    law_placed_on_a_live_broker(state, name);
    let leader = state.placement(name);
    let ids = state.node_ids();
    let i = choose|i: int| 0 <= i < ids.len() && ids[i] == leader;
    let brokers = topics::spec_brokers(state, Seq::empty());
    assert(brokers[i].node_id == leader);
}

/// A topic creates once: the second attempt is told so and changes nothing.
pub proof fn law_topic_creates_once(state: ClusterView, topic: NewTopicView, again: NewTopicView)
    requires
        again.name == topic.name,
        topics::creation_code(state, topic, Seq::empty()) == NONE,
    ensures
        ({
            let after = topics::after_create(state, topic, false, Seq::empty());
            &&& after.created.contains_key(topic.name)
            &&& after.resolve(
                Seq::empty(),
                topics::spec_mint_topic_id(topic.name),
            ) == Some(topic.name)
            &&& topics::creation_code(after, again, Seq::empty()) == TOPIC_ALREADY_EXISTS
            &&& topics::after_create(after, again, false, Seq::empty()) == after
        }),
{
}

/// A creation that is only validated changes nothing, and is answered as the
/// creation would be.
pub proof fn law_validation_changes_nothing(
    state: ClusterView,
    topics: Seq<NewTopicView>,
    faults: Seq<Fault>,
)
    ensures
        topics::create_all(state, topics, true, faults).0 == state,
        topics.len() == 1 ==> topics::create_all(state, topics, true, faults).1
            == topics::create_all(state, topics, false, faults).1,
    decreases topics.len(),
{
    if topics.len() > 0 {
        law_validation_changes_nothing(state, topics.drop_last(), faults);
        if topics.len() == 1 {
            assert(topics.drop_last() =~= Seq::empty());
            reveal_with_fuel(topics::create_all, 2);
        }
    }
}

/// A topic that was deleted is gone: it is unknown, its id stands for
/// nothing, and no log of it is left.
pub proof fn law_deleted_topic_is_gone(
    state: ClusterView,
    name: Seq<char>,
    partition: i32,
    correlation_id: i32,
    node_id: i32,
)
    requires
        state.created.contains_key(name),
    ensures
        ({
            let after = topics::after_delete(state, name, Seq::empty());
            &&& topics::spec_topic(after, name, correlation_id, node_id, Seq::empty()).error_code
                == UNKNOWN_TOPIC_OR_PARTITION
            &&& !after.topic_names.contains_key(state.created[name])
            &&& !after.logs.contains_key((name, partition))
            &&& topics::spec_deleted(after, name).error_code == UNKNOWN_TOPIC_OR_PARTITION
        }),
{
}

/// Deleting a topic leaves every other topic and its logs alone.
pub proof fn law_delete_spares_the_rest(
    state: ClusterView,
    name: Seq<char>,
    other: Seq<char>,
    partition: i32,
    faults: Seq<Fault>,
)
    requires
        other != name,
    ensures
        ({
            let after = topics::after_delete(state, name, faults);
            &&& after.created.contains_key(other) == state.created.contains_key(other)
            &&& state.created.contains_key(other) ==> after.created[other] == state.created[other]
            &&& after.logs.contains_key((other, partition)) == state.logs.contains_key(
                (other, partition),
            )
            &&& state.logs.contains_key((other, partition)) ==> after.logs[(other, partition)]
                == state.logs[(other, partition)]
            &&& after.committed == state.committed
        }),
{
}

/// Only the leader takes a write: any other broker refuses it, and nothing
/// changes.
pub proof fn law_only_the_leader_writes(
    state: ClusterView,
    name: Seq<char>,
    transactional_id: Option<Seq<char>>,
    partition: ProducePartitionView,
    node_id: i32,
    faults: Seq<Fault>,
)
    requires
        state.placement(name) != node_id,
        !faults.contains(Fault::AnyBrokerAcceptsWrites),
    ensures
        log::spec_produce_partition(
            state,
            Some(name),
            transactional_id,
            partition,
            node_id,
            faults,
        ) == (state, Some(log::refusal(partition.index, wire::NOT_LEADER_OR_FOLLOWER))),
{
}

/// What is produced is served: after a plain write of a record set to the
/// leader, a fetch of the partition from anywhere in its log gives back the
/// bytes that were there and then the produced ones, as they were produced.
pub proof fn law_fetch_serves_what_was_produced(
    state: ClusterView,
    name: Seq<char>,
    partition: ProducePartitionView,
    produced: Seq<u8>,
    batches: Seq<RecordBatch>,
    node_id: i32,
    topic: FetchTopicView,
    offset: i64,
    isolation_level: i8,
)
    requires
        state.placement(name) == node_id,
        partition.records == Some(produced),
        partition.batches == Some(batches),
        batches.len() > 0 ==> !log::is_stamped(batches[0]),
        state.resolve(topic.topic, topic.topic_id) == Some(name),
        offset <= log::log_of(state, name, partition.index).next_offset.wrapping_add(
            log::appended(batches),
        ),
    ensures
        ({
            let faults = Seq::<Fault>::empty();
            let before = log::log_of(state, name, partition.index);
            let (after, answer) = log::spec_produce_partition(
                state,
                Some(name),
                None,
                partition,
                node_id,
                faults,
            );
            let asked = FetchPartition { partition: partition.index, fetch_offset: offset };
            let served = log::spec_fetched(
                log::fetched_log(after, topic, partition.index),
                topic.topic,
                asked,
                isolation_level,
                false,
                faults,
            );
            &&& answer == Some(log::acceptance(partition.index, before.next_offset))
            &&& served.error_code == NONE
            &&& served.log is Some
            &&& served.log->Some_0.records == Some(before.bytes + produced)
            &&& served.log->Some_0.high_watermark == before.next_offset.wrapping_add(
                log::appended(batches),
            )
        }),
{
    let faults = Seq::<Fault>::empty();
    let before = log::log_of(state, name, partition.index);
    let (after, answer) = log::spec_produce_partition(
        state,
        Some(name),
        None,
        partition,
        node_id,
        faults,
    );
    assert(log::spec_stored(partition, batches, faults) == produced) by {
        match log::first_batch(batches) {
            Some(batch) => {
                match log::rewriting_fault(batch.attributes) {
                    Some(fault) => {
                        assert(!faults.contains(fault));
                    },
                    None => {},
                }
            },
            None => {},
        }
    }
    assert(after.resolve(topic.topic, topic.topic_id) == Some(name));
}

/// A recognized retry appends nothing: writing the same stamped batch again
/// leaves the log as it was and is answered with where the batch landed the
/// first time.
pub proof fn law_retry_appends_nothing(
    log: LogView,
    partition: ProducePartitionView,
    batches: Seq<RecordBatch>,
    first: WriteTerms,
    again: WriteTerms,
    faults: Seq<Fault>,
)
    requires
        partition.batches == Some(batches),
        batches.len() > 0,
        log::is_stamped(batches[0]),
        !log::spec_fenced(first.epoch, Some(batches[0]), faults),
        !log::spec_out_of_order(log, Some(batches[0]), faults),
        log::spec_duplicate_of(log, Some(batches[0]), faults) is None,
        !log::spec_fenced(again.epoch, Some(batches[0]), faults),
        !faults.contains(Fault::ProduceAppendsIdempotentRetries),
        !faults.contains(Fault::ProduceWrongBaseOffset),
    ensures
        ({
            let (written, answer) = log::spec_write(log, partition, first, faults);
            &&& answer == Some(log::acceptance(partition.index, log.next_offset))
            &&& log::spec_write(written, partition, again, faults) == (written, answer)
        }),
{
}

/// A gap in a producer's sequence is refused and nothing is written.
pub proof fn law_gap_is_refused(
    log: LogView,
    partition: ProducePartitionView,
    batches: Seq<RecordBatch>,
    terms: WriteTerms,
    faults: Seq<Fault>,
)
    requires
        partition.batches == Some(batches),
        batches.len() > 0,
        log::is_stamped(batches[0]),
        log.last_batch.contains_key(batches[0].producer_id),
        batches[0].base_sequence != log.last_batch[batches[0].producer_id].base_sequence,
        batches[0].base_sequence != log.last_batch[batches[0].producer_id].next_sequence,
        !log::spec_fenced(terms.epoch, Some(batches[0]), faults),
        !faults.contains(Fault::ProduceAcceptsSequenceGaps),
    ensures
        log::spec_write(log, partition, terms, faults) == (
            log,
            Some(log::refusal(partition.index, OUT_OF_ORDER_SEQUENCE_NUMBER)),
        ),
{
}

/// A batch that follows on from its producer's last one is taken.
pub proof fn law_next_batch_is_taken(
    log: LogView,
    partition: ProducePartitionView,
    batches: Seq<RecordBatch>,
    terms: WriteTerms,
)
    requires
        partition.batches == Some(batches),
        batches.len() > 0,
        log::is_stamped(batches[0]),
        log.last_batch.contains_key(batches[0].producer_id),
        batches[0].base_sequence == log.last_batch[batches[0].producer_id].next_sequence,
        batches[0].base_sequence != log.last_batch[batches[0].producer_id].base_sequence,
        !log::spec_fenced(terms.epoch, Some(batches[0]), Seq::empty()),
    ensures
        log::spec_write(log, partition, terms, Seq::empty()) == (
            log::spec_append(log, partition, batches, terms, Seq::empty()),
            Some(log::acceptance(partition.index, log.next_offset)),
        ),
{
}

/// A write with a superseded epoch is refused before its sequence is looked
/// at, and nothing is written.
pub proof fn law_fenced_write_is_refused(
    log: LogView,
    partition: ProducePartitionView,
    batches: Seq<RecordBatch>,
    terms: WriteTerms,
    epoch: i16,
    faults: Seq<Fault>,
)
    requires
        partition.batches == Some(batches),
        batches.len() > 0,
        terms.epoch == Some(epoch),
        batches[0].producer_epoch < epoch,
        !faults.contains(Fault::ProduceAcceptsFencedEpoch),
    ensures
        log::spec_write(log, partition, terms, faults) == (
            log,
            Some(log::refusal(partition.index, PRODUCER_FENCED)),
        ),
{
}

/// The last stable offset is no later than where any open transaction begins,
/// is where one of them begins, and is the end of the log where none is open.
pub proof fn law_stable_offset(log: LogView, producer_id: i64)
    ensures
        log.open.contains_key(producer_id) ==> log.stable_offset() <= log.open[producer_id],
        log.open.contains_key(producer_id) ==> exists|p: i64| #[trigger]
            log.open.contains_key(p) && log.open[p] == log.stable_offset(),
        log.open == Map::<i64, i64>::empty() ==> log.stable_offset() == log.next_offset,
{
    if exists|p: i64| #[trigger] log.open.contains_key(p) {
        let p = choose|p: i64| #[trigger] log.open.contains_key(p);
        lemma_some_first_open(log.open, p);
    }
}

/// Some open transaction begins first: from any that does not, one that begins
/// earlier leads on, and offsets are bounded below.
proof fn lemma_some_first_open(open: Map<i64, i64>, p: i64)
    requires
        open.contains_key(p),
    ensures
        exists|offset: i64| state::is_first_open(open, offset),
    decreases open[p] - i64::MIN,
{
    if exists|q: i64| #[trigger] open.contains_key(q) && open[q] < open[p] {
        let q = choose|q: i64| #[trigger] open.contains_key(q) && open[q] < open[p];
        lemma_some_first_open(open, q);
    } else {
        assert(state::is_first_open(open, open[p]));
    }
}

/// The commits of one topic, read at one partition: the last one of the
/// partition stands.
proof fn lemma_committed_last(
    committed: Map<OffsetKey, CommitView>,
    group: Seq<char>,
    name: Seq<char>,
    partitions: Seq<CommitPartitionView>,
    j: int,
    faults: Seq<Fault>,
)
    requires
        0 <= j < partitions.len(),
        forall|k: int|
            j < k < partitions.len() ==> (#[trigger] partitions[k]).partition_index
                != partitions[j].partition_index,
    ensures
        ({
            let after = offsets::commit_partitions(committed, group, name, partitions, faults);
            let key = (group, name, partitions[j].partition_index);
            after.contains_key(key) && after[key] == offsets::kept_commit(partitions[j], faults)
        }),
    decreases partitions.len(),
{
    if j < partitions.len() - 1 {
        let rest = partitions.drop_last();
        assert forall|k: int| j < k < rest.len() implies (#[trigger] rest[k]).partition_index
            != rest[j].partition_index by {
            assert(rest[k] == partitions[k]);
        }
        lemma_committed_last(committed, group, name, rest, j, faults);
        assert(partitions[partitions.len() - 1].partition_index != partitions[j].partition_index);
    }
}

/// Commits of one topic leave other keys alone.
proof fn lemma_committed_others(
    committed: Map<OffsetKey, CommitView>,
    group: Seq<char>,
    name: Seq<char>,
    partitions: Seq<CommitPartitionView>,
    key: OffsetKey,
    faults: Seq<Fault>,
)
    requires
        key.0 != group || key.1 != name || forall|k: int|
            0 <= k < partitions.len() ==> (#[trigger] partitions[k]).partition_index != key.2,
    ensures
        ({
            let after = offsets::commit_partitions(committed, group, name, partitions, faults);
            after.contains_key(key) == committed.contains_key(key) && after[key] == committed[key]
        }),
    decreases partitions.len(),
{
    if partitions.len() > 0 {
        let rest = partitions.drop_last();
        if key.0 == group && key.1 == name {
            assert forall|k: int| 0 <= k < rest.len() implies (#[trigger] rest[k]).partition_index
                != key.2 by {
                assert(rest[k] == partitions[k]);
            }
            assert(partitions[partitions.len() - 1].partition_index != key.2);
        }
        lemma_committed_others(committed, group, name, rest, key, faults);
    }
}

proof fn lemma_topics_committed(
    state: ClusterView,
    group: Seq<char>,
    topics: Seq<CommitTopicView>,
    i: int,
    j: int,
    faults: Seq<Fault>,
)
    requires
        0 <= i < topics.len(),
        0 <= j < topics[i].partitions.len(),
        stands(state, topics, i, j),
    ensures
        ({
            let after = offsets::commit_topics(state, group, topics, faults);
            let name = offsets::kept_under(state, topics[i].name, topics[i].topic_id);
            let key = (group, name, topics[i].partitions[j].partition_index);
            after.contains_key(key) && after[key] == offsets::kept_commit(
                topics[i].partitions[j],
                faults,
            )
        }),
    decreases topics.len(),
{
    let last = topics.len() - 1;
    let rest = topics.drop_last();
    let name = offsets::kept_under(state, topics[i].name, topics[i].topic_id);
    let key = (group, name, topics[i].partitions[j].partition_index);
    let before = offsets::commit_topics(state, group, rest, faults);
    let last_name = offsets::kept_under(state, topics[last].name, topics[last].topic_id);
    if i == last {
        assert forall|m: int|
            j < m < topics[i].partitions.len() implies (#[trigger] topics[i].partitions[m]).partition_index
            != topics[i].partitions[j].partition_index by {
            assert(!same_target(state, topics, i, j, i, m));
        }
        lemma_committed_last(before, group, name, topics[i].partitions, j, faults);
    } else {
        assert(stands(state, rest, i, j)) by {
            assert forall|k: int, m: int|
                0 <= k < rest.len() && 0 <= m < rest[k].partitions.len() && (k > i || (k == i && m
                    > j)) implies !#[trigger] same_target(state, rest, i, j, k, m) by {
                assert(rest[k] == topics[k]);
                assert(rest[i] == topics[i]);
                assert(!same_target(state, topics, i, j, k, m));
            }
        }
        lemma_topics_committed(state, group, rest, i, j, faults);
        if last_name == name {
            assert forall|m: int|
                0 <= m < topics[last].partitions.len() implies (#[trigger] topics[last].partitions[m]).partition_index
                != key.2 by {
                assert(!same_target(state, topics, i, j, last, m));
            }
        }
        lemma_committed_others(before, group, last_name, topics[last].partitions, key, faults);
    }
}

/// Whether two entries of a commit are for the same partition.
pub open spec fn same_target(
    state: ClusterView,
    topics: Seq<CommitTopicView>,
    i: int,
    j: int,
    k: int,
    m: int,
) -> bool {
    &&& offsets::kept_under(state, topics[i].name, topics[i].topic_id) == offsets::kept_under(
        state,
        topics[k].name,
        topics[k].topic_id,
    )
    &&& topics[i].partitions[j].partition_index == topics[k].partitions[m].partition_index
}

/// Whether no later entry of a commit is for the same partition.
pub open spec fn stands(state: ClusterView, topics: Seq<CommitTopicView>, i: int, j: int) -> bool {
    forall|k: int, m: int|
        0 <= k < topics.len() && 0 <= m < topics[k].partitions.len() && (k > i || (k == i && m
            > j)) ==> !#[trigger] same_target(state, topics, i, j, k, m)
}

/// What a run of commits leaves behind, each sent to a broker.
pub open spec fn after_commits(
    state: ClusterView,
    commits: Seq<(OffsetCommitAskView, i32)>,
) -> ClusterView
    decreases commits.len(),
{
    if commits.len() == 0 {
        state
    } else {
        let (ask, node_id) = commits.last();
        let before = after_commits(state, commits.drop_last());
        offsets::spec_offset_commit(before, ask, node_id, Seq::empty()).0
    }
}

/// Whether a commit is taken, and is for one group's partition among others.
pub open spec fn commits_to(
    state: ClusterView,
    ask: OffsetCommitAskView,
    node_id: i32,
    key: OffsetKey,
) -> bool {
    &&& state.placement(ask.group_id) == node_id
    &&& ask.group_id == key.0
    &&& exists|k: int, m: int|
        #![trigger ask.topics[k].partitions[m]]
        {
            &&& 0 <= k < ask.topics.len()
            &&& 0 <= m < ask.topics[k].partitions.len()
            &&& offsets::kept_under(state, ask.topics[k].name, ask.topics[k].topic_id) == key.1
            &&& ask.topics[k].partitions[m].partition_index == key.2
        }
}

/// Whether a run of commits is all for other groups, topics or partitions, or
/// refused.
pub open spec fn leaves(
    state: ClusterView,
    commits: Seq<(OffsetCommitAskView, i32)>,
    key: OffsetKey,
) -> bool {
    forall|n: int|
        0 <= n < commits.len() ==> !commits_to(
            after_commits(state, #[trigger] commits.take(n)),
            commits[n].0,
            commits[n].1,
            key,
        )
}

/// A commit for other keys leaves one alone.
proof fn lemma_topics_others(
    state: ClusterView,
    group: Seq<char>,
    topics: Seq<CommitTopicView>,
    key: OffsetKey,
)
    requires
        key.0 != group || forall|k: int, m: int|
            #![trigger topics[k].partitions[m]]
            0 <= k < topics.len() && 0 <= m < topics[k].partitions.len() ==> offsets::kept_under(
                state,
                topics[k].name,
                topics[k].topic_id,
            ) != key.1 || topics[k].partitions[m].partition_index != key.2,
    ensures
        ({
            let after = offsets::commit_topics(state, group, topics, Seq::empty());
            &&& after.contains_key(key) == state.committed.contains_key(key)
            &&& after[key] == state.committed[key]
        }),
    decreases topics.len(),
{
    if topics.len() > 0 {
        let rest = topics.drop_last();
        let last = topics.len() - 1;
        let name = offsets::kept_under(state, topics[last].name, topics[last].topic_id);
        if key.0 == group {
            assert forall|k: int, m: int|
                #![trigger rest[k].partitions[m]]
                0 <= k < rest.len() && 0 <= m < rest[k].partitions.len() implies offsets::kept_under(
                state,
                rest[k].name,
                rest[k].topic_id,
            ) != key.1 || rest[k].partitions[m].partition_index != key.2 by {
                assert(rest[k] == topics[k]);
                assert(topics[k].partitions[m] == rest[k].partitions[m]);
            }
            if key.1 == name {
                assert forall|m: int| 0 <= m < topics[last].partitions.len() implies (
                #[trigger] topics[last].partitions[m]).partition_index != key.2 by {}
            }
        }
        lemma_topics_others(state, group, rest, key);
        lemma_committed_others(
            offsets::commit_topics(state, group, rest, Seq::empty()),
            group,
            name,
            topics[last].partitions,
            key,
            Seq::empty(),
        );
    }
}

/// A run of commits for other keys leaves one alone.
proof fn lemma_left_alone(
    state: ClusterView,
    commits: Seq<(OffsetCommitAskView, i32)>,
    key: OffsetKey,
)
    requires
        leaves(state, commits, key),
    ensures
        ({
            let after = after_commits(state, commits);
            &&& after.committed.contains_key(key) == state.committed.contains_key(key)
            &&& after.committed[key] == state.committed[key]
            &&& after.topic_names == state.topic_names
        }),
    decreases commits.len(),
{
    if commits.len() > 0 {
        let rest = commits.drop_last();
        let last = commits.len() - 1;
        let (ask, node_id) = commits[last];
        let before = after_commits(state, rest);
        assert(commits.take(last) =~= rest);
        assert(!commits_to(before, ask, node_id, key));
        assert forall|n: int| 0 <= n < rest.len() implies !commits_to(
            after_commits(state, #[trigger] rest.take(n)),
            rest[n].0,
            rest[n].1,
            key,
        ) by {
            assert(rest.take(n) =~= commits.take(n));
        }
        lemma_left_alone(state, rest, key);
        if before.placement(ask.group_id) == node_id {
            lemma_topics_others(before, ask.group_id, ask.topics, key);
        }
    }
}

/// An OffsetFetch request for one partition, in the shape of its version.
pub open spec fn fetch_of(
    version: i16,
    group: Seq<char>,
    name: Seq<char>,
    topic_id: Seq<u8>,
    partition: i32,
) -> OffsetFetchAskView {
    let topics = Some(
        seq![OffsetTopicView { name, topic_id, partition_indexes: seq![partition] }],
    );
    if version >= OFFSET_FETCH_BATCHED {
        OffsetFetchAskView {
            group_id: ""@,
            topics: None,
            groups: seq![OffsetGroupView { group_id: group, topics }],
        }
    } else {
        OffsetFetchAskView { group_id: group, topics, groups: Seq::empty() }
    }
}

/// Whether OffsetFetch answers one partition without an error, with an offset
/// and its metadata, and leaves the cluster as it was.
pub open spec fn reads_back(
    state: ClusterView,
    sasl: SaslView,
    asked: Asked,
    schema: Schema,
    node_id: i32,
    ask: OffsetFetchAskView,
    commit: CommitView,
) -> bool {
    let (after, _, answer) = serve::spec_serve(
        state,
        sasl,
        RequestView::OffsetFetch(ask),
        asked,
        schema,
        node_id,
        Seq::empty(),
    );
    &&& after == state
    &&& answer matches AnswerView::Frame(_, BodyView::OffsetFetch(reply)) && {
        let rows = if asked.api_version >= OFFSET_FETCH_BATCHED {
            reply.groups[0].topics[0].partitions
        } else {
            reply.topics[0].partitions
        };
        &&& asked.api_version >= OFFSET_FETCH_BATCHED ==> reply.groups[0].error_code == NONE
        &&& rows.len() == 1
        &&& rows[0].error_code == NONE
        &&& rows[0].committed_offset == commit.offset
        &&& rows[0].metadata == commit.metadata
    }
}

/// What was committed reads back: after a commit at the group's coordinator,
/// and any number of others that are for other groups, topics or partitions, or
/// refused, a fetch of a partition it named gives the offset and the metadata
/// that were committed for it last. That is so at every version and from every
/// broker, whether the topic is named or, where groups are batched, identified.
pub proof fn law_commit_reads_back(
    state: ClusterView,
    ask: OffsetCommitAskView,
    i: int,
    j: int,
    node_id: i32,
    later: Seq<(OffsetCommitAskView, i32)>,
    name: Seq<char>,
    topic_id: Seq<u8>,
    sasl: SaslView,
    asked: Asked,
    schema: Schema,
    reader: i32,
)
    requires
        state.placement(ask.group_id) == node_id,
        0 <= i < ask.topics.len(),
        0 <= j < ask.topics[i].partitions.len(),
        stands(state, ask.topics, i, j),
        state.resolve(name, topic_id) == Some(
            offsets::kept_under(state, ask.topics[i].name, ask.topics[i].topic_id),
        ),
        asked.api_version >= OFFSET_FETCH_BATCHED || name.len() > 0,
        leaves(
            offsets::spec_offset_commit(state, ask, node_id, Seq::empty()).0,
            later,
            (
                ask.group_id,
                offsets::kept_under(state, ask.topics[i].name, ask.topics[i].topic_id),
                ask.topics[i].partitions[j].partition_index,
            ),
        ),
    ensures
        ({
            let (after, reply) = offsets::spec_offset_commit(state, ask, node_id, Seq::empty());
            let committed = ask.topics[i].partitions[j];
            &&& reply.topics[i].partitions[j].error_code == NONE
            &&& reads_back(
                after_commits(after, later),
                sasl,
                asked,
                schema,
                reader,
                fetch_of(
                    asked.api_version,
                    ask.group_id,
                    name,
                    topic_id,
                    committed.partition_index,
                ),
                CommitView {
                    offset: committed.committed_offset,
                    metadata: committed.committed_metadata,
                },
            )
        }),
{
    let kept = offsets::kept_under(state, ask.topics[i].name, ask.topics[i].topic_id);
    let key = (ask.group_id, kept, ask.topics[i].partitions[j].partition_index);
    let after = offsets::spec_offset_commit(state, ask, node_id, Seq::empty()).0;
    lemma_topics_committed(state, ask.group_id, ask.topics, i, j, Seq::empty());
    lemma_left_alone(after, later, key);
}

/// A partition that a group never committed reads as unset, which is no
/// error, whatever is committed elsewhere.
pub proof fn law_uncommitted_reads_as_unset(
    state: ClusterView,
    group: Seq<char>,
    kept: Seq<char>,
    partition: i32,
    later: Seq<(OffsetCommitAskView, i32)>,
    name: Seq<char>,
    topic_id: Seq<u8>,
    sasl: SaslView,
    asked: Asked,
    schema: Schema,
    reader: i32,
)
    requires
        !state.committed.contains_key((group, kept, partition)),
        state.resolve(name, topic_id) == Some(kept),
        asked.api_version >= OFFSET_FETCH_BATCHED || name.len() > 0,
        leaves(state, later, (group, kept, partition)),
    ensures
        reads_back(
            after_commits(state, later),
            sasl,
            asked,
            schema,
            reader,
            fetch_of(asked.api_version, group, name, topic_id, partition),
            CommitView { offset: UNSET_OFFSET, metadata: None },
        ),
{
    lemma_left_alone(state, later, (group, kept, partition));
}

/// A broker that does not coordinate a group takes none of its offsets.
pub proof fn law_commit_elsewhere_is_refused(
    state: ClusterView,
    ask: OffsetCommitAskView,
    node_id: i32,
    faults: Seq<Fault>,
)
    requires
        state.placement(ask.group_id) != node_id,
        !faults.contains(Fault::AnyBrokerServesGroups),
    ensures
        ({
            let (after, reply) = offsets::spec_offset_commit(state, ask, node_id, faults);
            &&& after == state
            &&& reply.topics.len() == ask.topics.len()
            &&& forall|i: int, j: int|
                #![trigger reply.topics[i].partitions[j]]
                0 <= i < reply.topics.len() && 0 <= j < reply.topics[i].partitions.len()
                    ==> reply.topics[i].partitions[j].error_code == NOT_COORDINATOR
        }),
{
}

/// Taking over a transactional id ends whatever the predecessor left open, and
/// publishes none of it: no partition is announced, no offset is held back, and
/// no log has its producer's transaction open.
pub proof fn law_claim_ends_what_was_open(
    state: ClusterView,
    id: Seq<char>,
    key: (Seq<char>, i32),
    faults: Seq<Fault>,
)
    requires
        state.txns.contains_key(id),
        state.logs.contains_key(key),
    ensures
        ({
            let ask = InitProducerIdAskView { transactional_id: Some(id) };
            let (after, reply) = txn::spec_init_producer_id(state, ask, faults);
            &&& reply.producer_id == state.txns[id].producer_id
            &&& after.txns[id].partitions == Set::<(Seq<char>, i32)>::empty()
            &&& after.txns[id].pending_offsets == Map::<OffsetKey, CommitView>::empty()
            &&& after.committed == state.committed
            &&& !after.logs[key].open.contains_key(reply.producer_id)
        }),
{
}

/// The epoch moves every time a transactional id is claimed, and the producer
/// that held it is fenced from then on.
pub proof fn law_claim_fences_the_predecessor(
    state: ClusterView,
    id: Seq<char>,
    held: i16,
)
    requires
        held <= txn::txn_of(state, id).epoch,
        txn::txn_of(state, id).epoch < i16::MAX,
    ensures
        ({
            let ask = InitProducerIdAskView { transactional_id: Some(id) };
            let (after, reply) = txn::spec_init_producer_id(state, ask, Seq::empty());
            &&& reply.producer_epoch == txn::txn_of(state, id).epoch + 1
            &&& txn::spec_epoch_check(after, id, held, Seq::empty()) == PRODUCER_FENCED
            &&& txn::spec_epoch_check(after, id, reply.producer_epoch, Seq::empty()) == NONE
            &&& log::spec_terms(after, Some(id), Seq::empty(), 0).epoch == Some(
                reply.producer_epoch,
            )
        }),
{
}

/// Offsets committed inside a transaction wait for it: nothing is published
/// before the end, a commit publishes them, an abort drops them.
pub proof fn law_txn_offsets_wait_for_the_end(
    state: ClusterView,
    ask: TxnOffsetsAskView,
    committed: bool,
)
    requires
        state.txns.contains_key(ask.transactional_id),
        state.txns[ask.transactional_id].epoch == ask.producer_epoch,
    ensures
        ({
            let id = ask.transactional_id;
            let held = txn::spec_txn_offsets(state, ask, Seq::empty()).0;
            let end = EndTxnAskView {
                transactional_id: id,
                producer_epoch: ask.producer_epoch,
                committed,
            };
            let (after, code) = txn::spec_end_txn(held, end, Seq::empty());
            let offsets = txn::hold_topics(
                state.txns[id].pending_offsets,
                ask.group_id,
                ask.topics,
            );
            &&& held.committed == state.committed
            &&& code == NONE
            &&& after.committed == (if committed {
                state.committed.union_prefer_right(offsets)
            } else {
                state.committed
            })
            &&& after.txns[id].pending_offsets == Map::<OffsetKey, CommitView>::empty()
        }),
{
}

/// The end of a transaction reaches every log its producer wrote to: none is
/// left open, and an abort is reported to readers with where it began.
pub proof fn law_end_marks_every_log(
    state: ClusterView,
    id: Seq<char>,
    key: (Seq<char>, i32),
    committed: bool,
)
    requires
        state.txns.contains_key(id),
        state.logs.contains_key(key),
    ensures
        ({
            let producer_id = state.txns[id].producer_id;
            let before = state.logs[key];
            let after = txn::end_of(state, id, committed, Seq::empty()).logs[key];
            &&& !after.open.contains_key(producer_id)
            &&& after.bytes == before.bytes
            &&& before.open.contains_key(producer_id) && !committed ==> after.aborted
                == before.aborted.push((producer_id, before.open[producer_id]))
            &&& committed ==> after.aborted == before.aborted
            &&& !before.open.contains_key(producer_id) ==> after == before
        }),
{
}

/// A member that was admitted is let through the fence at its generation, and
/// refused at any other.
pub proof fn law_admitted_member_passes_the_fence(
    group: GroupView,
    ask: JoinGroupAskView,
    api_version: i16,
    generation_id: i32,
)
    requires
        !groups::needs_id(ask, api_version, Seq::empty()),
    ensures
        ({
            let (after, reply) = groups::spec_join(group, ask, api_version, Seq::empty());
            &&& reply.error_code == NONE
            &&& after.members.contains(reply.member_id)
            &&& groups::spec_fence(after, generation_id, reply.member_id, Seq::empty()) == (if
            generation_id == reply.generation_id {
                None
            } else {
                Some(ILLEGAL_GENERATION)
            })
        }),
{
    let (after, reply) = groups::spec_join(group, ask, api_version, Seq::empty());
    let id = groups::joining_id(group, ask);
    if !group.members.contains(id) {
        assert(after.members[group.members.len() as int] == id);
    }
}

/// A member that is new to the group moves its generation, which fences the
/// members that have not rejoined.
pub proof fn law_new_member_moves_the_generation(
    group: GroupView,
    ask: JoinGroupAskView,
    member_id: Seq<char>,
)
    requires
        ask.member_id.len() > 0,
        !group.members.contains(ask.member_id),
        group.members.contains(member_id),
        group.generation_id < i32::MAX,
    ensures
        ({
            let after = groups::after_join(group, ask);
            &&& after.generation_id == group.generation_id + 1
            &&& after.members.contains(member_id)
            &&& groups::spec_fence(after, group.generation_id, member_id, Seq::empty()) == Some(
                ILLEGAL_GENERATION,
            )
        }),
{
    let after = groups::after_join(group, ask);
    let k = choose|k: int| 0 <= k < group.members.len() && group.members[k] == member_id;
    assert(after.members[k] == member_id);
}

/// An id that was minted for a join is one that the member can come back
/// with: the rejoin is admitted under it.
pub proof fn law_minted_id_is_admitted(group: GroupView, ask: JoinGroupAskView, api_version: i16)
    requires
        groups::needs_id(ask, api_version, Seq::empty()),
    ensures
        ({
            let (after, refused) = groups::spec_join(group, ask, api_version, Seq::empty());
            let again = JoinGroupAskView { member_id: refused.member_id, ..ask };
            let (joined, admitted) = groups::spec_join(after, again, api_version, Seq::empty());
            &&& refused.error_code == wire::MEMBER_ID_REQUIRED
            &&& after.members == group.members
            &&& admitted.error_code == NONE
            &&& admitted.member_id == refused.member_id
            &&& joined.members.contains(refused.member_id)
        }),
{
    reveal_strlit("odradek-member-");
    let (after, refused) = groups::spec_join(group, ask, api_version, Seq::empty());
    let again = JoinGroupAskView { member_id: refused.member_id, ..ask };
    law_admitted_member_passes_the_fence(after, again, api_version, 0);
}

/// A member that left is unknown from then on, whatever generation it
/// carries.
pub proof fn law_departed_member_is_unknown(
    state: ClusterView,
    ask: LeaveGroupAskView,
    member_id: Seq<char>,
    generation_id: i32,
)
    requires
        state.groups.contains_key(ask.group_id),
        groups::leaving(ask).contains(member_id),
    ensures
        groups::spec_fence(
            groups::spec_leave_group(state, ask, Seq::empty()).groups[ask.group_id],
            generation_id,
            member_id,
            Seq::empty(),
        ) == Some(UNKNOWN_MEMBER_ID),
{
    let stays = groups::staying(groups::leaving(ask));
    let members = state.groups[ask.group_id].members;
    broadcast use vstd::seq_lib::group_filter_ensures;

    let kept = members.filter(stays);
    if kept.contains(member_id) {
        let k = choose|k: int| 0 <= k < kept.len() && kept[k] == member_id;
        assert(stays(kept[k]));
    }
}

/// The leader's assignment reaches its member as it was given: a member's own
/// sync hands back the bytes that the leader gave for it last.
pub proof fn law_assignment_is_delivered_verbatim(
    group: GroupView,
    leader: SyncGroupAskView,
    member: SyncGroupAskView,
    j: int,
)
    requires
        group.members.len() > 0,
        group.members[0] == leader.member_id,
        group.members.contains(member.member_id),
        member.member_id != leader.member_id,
        leader.generation_id == group.generation_id,
        member.generation_id == group.generation_id,
        0 <= j < leader.assignments.len(),
        leader.assignments[j].member_id == member.member_id,
        forall|k: int|
            j < k < leader.assignments.len() ==> (#[trigger] leader.assignments[k]).member_id
                != member.member_id,
    ensures
        ({
            let (after, first) = groups::spec_sync(group, leader, Seq::empty());
            let (_, second) = groups::spec_sync(after, member, Seq::empty());
            &&& first.error_code == NONE
            &&& second.error_code == NONE
            &&& second.assignment == leader.assignments[j].assignment
        }),
{
    assert(group.members.contains(leader.member_id)) by {
        assert(group.members[0] == leader.member_id);
    }
    lemma_assigned(group.assignments, leader.assignments, j);
}

proof fn lemma_assigned(
    assignments: Map<Seq<char>, Seq<u8>>,
    given: Seq<GivenAssignmentView>,
    j: int,
)
    requires
        0 <= j < given.len(),
        forall|k: int|
            j < k < given.len() ==> (#[trigger] given[k]).member_id != given[j].member_id,
    ensures
        ({
            let after = groups::assign_all(assignments, given, Seq::empty());
            after.contains_key(given[j].member_id) && after[given[j].member_id]
                == given[j].assignment
        }),
    decreases given.len(),
{
    if j < given.len() - 1 {
        let rest = given.drop_last();
        assert forall|k: int| j < k < rest.len() implies (#[trigger] rest[k]).member_id
            != rest[j].member_id by {
            assert(rest[k] == given[k]);
        }
        lemma_assigned(assignments, rest, j);
        assert(given[given.len() - 1].member_id != given[j].member_id);
    }
}

/// A member that introduces itself is admitted past epoch 0 and told what it
/// has; a steady heartbeat after it, which says nothing, is told nothing and
/// changes nothing.
pub proof fn law_steady_heartbeat_is_quiet(state: ClusterView, ask: ConsumerGroupAskView)
    requires
        ask.member_epoch == 0,
        !state.members.contains_key((ask.group_id, ask.member_id)),
    ensures
        ({
            let (after, first) = groups::spec_consumer_group(state, ask, Seq::empty());
            let steady = ConsumerGroupAskView {
                member_epoch: first.member_epoch,
                subscribed: None,
                ..ask
            };
            let (later, second) = groups::spec_consumer_group(after, steady, Seq::empty());
            &&& first.error_code == NONE
            &&& first.member_epoch == 1
            &&& first.assignment is Some
            &&& second.error_code == NONE
            &&& second.member_epoch == first.member_epoch
            &&& second.assignment is None
            &&& later == after
        }),
{
    let (after, first) = groups::spec_consumer_group(state, ask, Seq::empty());
    let steady = ConsumerGroupAskView {
        member_epoch: first.member_epoch,
        subscribed: None,
        ..ask
    };
    let (later, second) = groups::spec_consumer_group(after, steady, Seq::empty());
    assert(later.members =~= after.members);
}

/// A heartbeat at another epoch than the member's is fenced and changes
/// nothing; one from a member that left, or was never met, is unknown.
pub proof fn law_stale_heartbeat_is_fenced(state: ClusterView, ask: ConsumerGroupAskView)
    requires
        ask.member_epoch != groups::LEAVE_EPOCH,
        ask.member_epoch != 0,
    ensures
        ({
            let key = (ask.group_id, ask.member_id);
            let (after, reply) = groups::spec_consumer_group(state, ask, Seq::empty());
            &&& state.members.contains_key(key) && state.members[key].epoch != ask.member_epoch
                ==> reply.error_code == FENCED_MEMBER_EPOCH && after == state
            &&& !state.members.contains_key(key) ==> reply.error_code == UNKNOWN_MEMBER_ID
                && after == state
        }),
{
}

/// A token that comes before the handshake is an error of state, and leaves
/// the exchange where it was; no connection is authenticated without a
/// mechanism.
pub proof fn law_token_needs_a_mechanism(scram: Result<Seq<char>, Seq<char>>)
    ensures
        ({
            let (after, reply) = sasl::spec_authenticate(
                SaslView::Unstarted,
                scram,
                Seq::empty(),
            );
            &&& after == SaslView::Unstarted
            &&& reply.error_code == ILLEGAL_SASL_STATE
        }),
{
}

/// A SCRAM exchange ends authenticated exactly where the server accepted both
/// messages; a message it refused leaves the exchange where it was.
pub proof fn law_scram_exchange(
    first: Result<Seq<char>, Seq<char>>,
    last: Result<Seq<char>, Seq<char>>,
    faults: Seq<Fault>,
)
    ensures
        ({
            let start = SaslView::Negotiated("SCRAM-SHA-256"@);
            let (pending, _) = sasl::spec_authenticate(start, first, faults);
            let (end, reply) = sasl::spec_authenticate(pending, last, faults);
            &&& pending == (if first is Ok {
                SaslView::ScramPending
            } else {
                start
            })
            &&& first is Ok ==> (end == SaslView::Authenticated <==> last is Ok)
            &&& first is Ok ==> (reply.error_code == NONE <==> last is Ok)
        }),
{
}

/// A mechanism that is not on offer is refused with the list of those that
/// are, and leaves the exchange where it was.
pub proof fn law_unknown_mechanism_is_told_the_list(sasl: SaslView, mechanism: Seq<char>)
    requires
        !sasl::is_offered(mechanism),
    ensures
        ({
            let (after, reply) = sasl::spec_handshake(sasl, mechanism, Seq::empty());
            &&& after == sasl
            &&& reply.error_code == wire::UNSUPPORTED_SASL_MECHANISM
            &&& reply.mechanisms == sasl::spec_mechanisms()
        }),
{
}

/// Without faults every frame echoes its request's correlation id, ends with
/// its body, and is encoded at the request's version; of ApiVersions, at
/// version 0 where that version is not spoken.
pub proof fn law_frames_without_faults(
    state: ClusterView,
    sasl: SaslView,
    request: RequestView,
    asked: Asked,
    schema: Schema,
    node_id: i32,
)
    ensures
        match serve::spec_serve(state, sasl, request, asked, schema, node_id, Seq::empty()).2 {
            AnswerView::Frame(framing, _) => {
                &&& framing.correlation_id == asked.correlation_id
                &&& !framing.trailing_garbage
                &&& framing.encode_at == (if request is ApiVersions
                    && !topics::spec_supported(schema, asked.api_version) {
                    0
                } else {
                    asked.api_version
                })
            },
            _ => true,
        },
{
}

/// Silence is the answer to nothing but a produce that asked for none, and a
/// produce that asked for one is never met with it.
pub proof fn law_silence_is_for_acks_zero(
    state: ClusterView,
    sasl: SaslView,
    request: RequestView,
    asked: Asked,
    schema: Schema,
    node_id: i32,
    faults: Seq<Fault>,
)
    ensures
        serve::spec_serve(state, sasl, request, asked, schema, node_id, faults).2 is Silence
            ==> (request matches RequestView::Produce(ask) && ask.acks == 0),
{
}

/// A fault that concerns one api leaves the cluster as it was whenever a
/// request only reads: Metadata, Fetch, ListOffsets, FindCoordinator,
/// OffsetFetch and DescribeGroups never change it, whatever is injected.
pub proof fn law_reads_change_nothing(
    state: ClusterView,
    sasl: SaslView,
    request: RequestView,
    asked: Asked,
    schema: Schema,
    node_id: i32,
    faults: Seq<Fault>,
)
    requires
        request is ApiVersions || request is Metadata || request is Fetch || request is ListOffsets
            || request is FindCoordinator || request is OffsetFetch || request is DescribeGroups
            || request is AddOffsets,
    ensures
        serve::spec_serve(state, sasl, request, asked, schema, node_id, faults).0 == state,
        serve::spec_serve(state, sasl, request, asked, schema, node_id, faults).1 == sasl,
{
}

} // verus!

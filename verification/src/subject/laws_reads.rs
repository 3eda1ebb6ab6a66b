//! What holds of the reference subject's answers to those who only ask.

use vstd::prelude::*;

use crate::subject::groups;
use crate::subject::log;
use crate::subject::requests::{
    ConsumerGroupAskView, DescribeGroupsAskView, FetchAskView, FetchPartition, FetchTopicView,
    ListPartitionView, NewTopicView,
};
use crate::subject::state::{ClusterView, LogView};
use crate::subject::topics;
use crate::subject::Fault;
use crate::wire::{Record, RecordBatch, Records};

verus! {

/// Whether a fetch has something to bring: a partition that it names, of a topic
/// that is known, goes on past the offset it asks from.
pub open spec fn brings(state: ClusterView, ask: FetchAskView, i: int, j: int) -> bool {
    let topic = ask.topics[i];
    let wanted = topic.partitions[j];
    &&& 0 <= i < ask.topics.len()
    &&& 0 <= j < topic.partitions.len()
    &&& state.resolve(topic.topic, topic.topic_id) matches Some(name) && state.logs.contains_key(
        (name, wanted.partition),
    ) && wanted.fetch_offset < state.logs[(name, wanted.partition)].next_offset
}

/// A fetch is held back for as long as it allows exactly if it asks for bytes,
/// allows for a wait, and has nothing to bring; one that has something, or asks
/// for nothing, is answered at once.
pub proof fn law_fetches_wait_for_something_to_bring(
    state: ClusterView,
    ask: FetchAskView,
    faults: Seq<Fault>,
)
    requires
        !faults.contains(Fault::FetchIgnoresMaxWait),
    ensures
        log::spec_fetch_wait(state, ask, faults) == (if ask.min_bytes > 0 && ask.max_wait_ms > 0
            && forall|i: int, j: int| !#[trigger] brings(state, ask, i, j) {
            Some(ask.max_wait_ms as u64)
        } else {
            None
        }),
{
    if log::spec_satisfiable(state, ask) && ask.min_bytes > 0 {
        let i = choose|i: int|
            0 <= i < ask.topics.len() && log::topic_has_records(state, #[trigger] ask.topics[i]);
        let topic = ask.topics[i];
        let j = choose|j: int|
            0 <= j < topic.partitions.len() && log::has_records(
                state,
                topic,
                #[trigger] topic.partitions[j],
            );
        assert(brings(state, ask, i, j));
    }
    if exists|i: int, j: int| #[trigger] brings(state, ask, i, j) {
        let (i, j) = choose|i: int, j: int| #[trigger] brings(state, ask, i, j);
        let topic = ask.topics[i];
        assert(log::has_records(state, topic, topic.partitions[j]));
        assert(log::topic_has_records(state, ask.topics[i]));
        assert(log::spec_satisfiable(state, ask));
    }
}

/// A fetch of a log: refused exactly if it asks from past the end; otherwise
/// given the log's bytes. Either way it is told where the log ends and how far
/// it is stable, and only one who reads what was committed is told what was
/// aborted.
pub proof fn law_fetches_are_answered(
    held: LogView,
    topic: Seq<char>,
    wanted: FetchPartition,
    isolation_level: i8,
)
    ensures
        ({
            let row = log::spec_fetched(
                Some(held),
                topic,
                wanted,
                isolation_level,
                false,
                Seq::empty(),
            );
            let beyond = wanted.fetch_offset > held.next_offset;
            &&& row.partition_index == wanted.partition
            &&& row.error_code == (if beyond {
                1i16
            } else {
                0i16
            })
            &&& row.log matches Some(told) && {
                &&& told.high_watermark == held.next_offset
                &&& told.last_stable_offset == held.stable_offset()
                &&& told.records == (if beyond {
                    None
                } else {
                    Some(held.bytes)
                })
                &&& told.aborted_transactions == (if beyond || isolation_level != 1 {
                    None
                } else {
                    Some(held.aborted)
                })
            }
        }),
{
}

/// A fetch of what is not there is told so: of a topic that was named, that it
/// is not known, and of one that was not, that its id is not.
pub proof fn law_fetches_of_nothing_are_refused(
    topic: Seq<char>,
    wanted: FetchPartition,
    isolation_level: i8,
    corrupt: bool,
    faults: Seq<Fault>,
)
    ensures
        ({
            let row = log::spec_fetched(None, topic, wanted, isolation_level, corrupt, faults);
            row.log is None && row.error_code == (if topic.len() > 0 {
                3i16
            } else {
                100i16
            })
        }),
{
}

/// The time of a record.
pub open spec fn time_of(batches: Seq<RecordBatch>, i: int, j: int) -> i64 {
    batches[i].base_timestamp.wrapping_add(batches[i].records->Plain_0@[j].timestamp_delta)
}

/// Whether there is a record at a place of a log.
pub open spec fn holds(batches: Seq<RecordBatch>, i: int, j: int) -> bool {
    0 <= i < batches.len() && batches[i].records is Plain && 0 <= j
        < batches[i].records->Plain_0@.len()
}

/// Whether one record of a log comes before another.
pub open spec fn is_earlier(i: int, j: int, k: int, l: int) -> bool {
    i < k || (i == k && j < l)
}

/// The offset that a batch of a log begins at.
pub open spec fn offset_of(batches: Seq<RecordBatch>, i: int) -> i64
    decreases i,
{
    if i <= 0 {
        0
    } else {
        offset_of(batches, i - 1).wrapping_add(
            match batches[i - 1].records {
                Records::Plain(records) => records@.len() as i64,
                Records::Compressed { .. } => (batches[i - 1].last_offset_delta + 1) as i64,
            },
        )
    }
}

/// A search by time: -1 and -1 exactly if no record is at or after the time;
/// otherwise the time and the offset of the first that is.
pub proof fn law_searches_find_the_first_in_time(batches: Seq<RecordBatch>, wanted: i64)
    ensures
        ({
            let (time, offset) = log::spec_timestamp_search(Some(batches), wanted);
            ||| time == -1 && offset == -1 && forall|i: int, j: int| #[trigger]
                holds(batches, i, j) ==> time_of(batches, i, j) < wanted
            ||| exists|i: int, j: int|
                #![trigger holds(batches, i, j)]
                holds(batches, i, j) && time == time_of(batches, i, j) && time >= wanted && offset
                    == offset_of(batches, i).wrapping_add(j as i64) && forall|k: int, l: int|
                    #[trigger]
                    holds(batches, k, l) && is_earlier(k, l, i, j) ==> time_of(batches, k, l)
                        < wanted
        }),
{
    lemma_searched(batches, wanted, 0);
}

proof fn lemma_searched(batches: Seq<RecordBatch>, wanted: i64, from: int)
    requires
        0 <= from <= batches.len(),
        forall|k: int, l: int| #[trigger]
            holds(batches, k, l) && k < from ==> time_of(batches, k, l) < wanted,
    ensures
        ({
            let (time, offset) = log::search_from(
                batches,
                wanted,
                from,
                offset_of(batches, from),
            );
            ||| time == -1 && offset == -1 && forall|i: int, j: int| #[trigger]
                holds(batches, i, j) ==> time_of(batches, i, j) < wanted
            ||| exists|i: int, j: int|
                #![trigger holds(batches, i, j)]
                holds(batches, i, j) && time == time_of(batches, i, j) && time >= wanted && offset
                    == offset_of(batches, i).wrapping_add(j as i64) && forall|k: int, l: int|
                    #[trigger]
                    holds(batches, k, l) && is_earlier(k, l, i, j) ==> time_of(batches, k, l)
                        < wanted
        }),
    decreases batches.len() - from,
{
    if from < batches.len() {
        match batches[from].records {
            Records::Plain(records) => {
                lemma_first_at(records@, batches[from].base_timestamp, wanted, 0);
                match log::first_at(records@, batches[from].base_timestamp, wanted, 0) {
                    Some(j) => {
                        assert(holds(batches, from, j));
                        assert forall|k: int, l: int| #[trigger]
                            holds(batches, k, l) && is_earlier(k, l, from, j) implies time_of(
                            batches,
                            k,
                            l,
                        ) < wanted by {
                            if k == from {
                                assert(batches[from].base_timestamp.wrapping_add(
                                    records@[l].timestamp_delta,
                                ) < wanted);
                            }
                        }
                    },
                    None => {
                        assert forall|k: int, l: int| #[trigger]
                            holds(batches, k, l) && k < from + 1 implies time_of(batches, k, l)
                            < wanted by {
                            if k == from {
                                assert(batches[from].base_timestamp.wrapping_add(
                                    records@[l].timestamp_delta,
                                ) < wanted);
                            }
                        }
                        lemma_searched(batches, wanted, from + 1);
                    },
                }
            },
            Records::Compressed { .. } => {
                lemma_searched(batches, wanted, from + 1);
            },
        }
    }
}

proof fn lemma_first_at(
    records: Seq<Record>,
    base: i64,
    wanted: i64,
    from: int,
)
    requires
        0 <= from,
    ensures
        match log::first_at(records, base, wanted, from) {
            Some(j) => from <= j < records.len() && base.wrapping_add(records[j].timestamp_delta)
                >= wanted && forall|l: int|
                from <= l < j ==> base.wrapping_add((#[trigger] records[l]).timestamp_delta)
                    < wanted,
            None => forall|l: int|
                from <= l < records.len() ==> base.wrapping_add(
                    (#[trigger] records[l]).timestamp_delta,
                ) < wanted,
        },
    decreases records.len() - from,
{
    if from < records.len() && base.wrapping_add(records[from].timestamp_delta) < wanted {
        lemma_first_at(records, base, wanted, from + 1);
    }
}

/// An offset that is looked up: the start of a log is 0, its end is where the
/// next record goes, and any other time is searched for, with -1 where nothing
/// was ever written.
pub proof fn law_offsets_are_looked_up(held: Option<LogView>, wanted: ListPartitionView)
    ensures
        ({
            let (time, offset) = log::listed_offset(held, wanted, Seq::empty());
            &&& wanted.timestamp == -2 ==> offset == 0
            &&& wanted.timestamp == -1 ==> offset == (match held {
                Some(log) => log.next_offset,
                None => 0,
            })
            &&& wanted.timestamp != -2 && wanted.timestamp != -1 ==> (time, offset) == (match held {
                Some(_) => log::spec_timestamp_search(wanted.stored, wanted.timestamp),
                None => (-1i64, -1i64),
            })
        }),
{
}

/// A group that is described: in the place it was asked for, under its name,
/// without an error, with each of its members in order.
pub proof fn law_groups_are_described(
    state: ClusterView,
    ask: DescribeGroupsAskView,
    i: int,
    m: int,
)
    requires
        0 <= i < ask.groups.len(),
    ensures
        ({
            let reply = groups::spec_describe_groups(state, ask, Seq::empty());
            let row = reply.groups[i];
            &&& reply.groups.len() == ask.groups.len()
            &&& row.group_id == ask.groups[i] && row.error_code == 0
            &&& row.members.len() == (if state.groups.contains_key(ask.groups[i]) {
                state.groups[ask.groups[i]].members.len()
            } else {
                0
            })
            &&& state.groups.contains_key(ask.groups[i]) && 0 <= m
                < state.groups[ask.groups[i]].members.len() ==> row.members[m].member_id
                == state.groups[ask.groups[i]].members[m]
        }),
{
}

/// A subscription is assigned the topics in it that exist, each by its id, and
/// no others.
pub proof fn law_subscriptions_are_assigned(
    created: Map<Seq<char>, Seq<u8>>,
    subscribed: Seq<Seq<char>>,
    id: Seq<u8>,
)
    ensures
        groups::assigned_ids(created, subscribed).contains(id) <==> exists|i: int|
            0 <= i < subscribed.len() && created.contains_key(#[trigger] subscribed[i])
                && created[subscribed[i]] == id,
    decreases subscribed.len(),
{
    if subscribed.len() > 0 {
        let rest = subscribed.drop_last();
        let before = groups::assigned_ids(created, rest);
        let all = groups::assigned_ids(created, subscribed);
        law_subscriptions_are_assigned(created, rest, id);
        if all.contains(id) {
            let k = choose|k: int| 0 <= k < all.len() && all[k] == id;
            if k < before.len() {
                assert(before[k] == id);
                let i = choose|i: int|
                    0 <= i < rest.len() && created.contains_key(#[trigger] rest[i])
                        && created[rest[i]] == id;
                assert(subscribed[i] == rest[i]);
            } else {
                assert(created.contains_key(subscribed[subscribed.len() - 1]));
            }
        }
        if exists|i: int|
            0 <= i < subscribed.len() && created.contains_key(#[trigger] subscribed[i])
                && created[subscribed[i]] == id {
            let i = choose|i: int|
                0 <= i < subscribed.len() && created.contains_key(#[trigger] subscribed[i])
                    && created[subscribed[i]] == id;
            if i < rest.len() {
                assert(rest[i] == subscribed[i]);
                let k = choose|k: int| 0 <= k < before.len() && before[k] == id;
                assert(all[k] == id);
            } else {
                assert(all[all.len() - 1] == id);
            }
        }
    }
}

/// A heartbeat is answered with a positive pace and the member's own name,
/// whatever else it is told.
pub proof fn law_heartbeats_name_a_pace(
    state: ClusterView,
    ask: ConsumerGroupAskView,
    faults: Seq<Fault>,
)
    ensures
        ({
            let reply = groups::spec_consumer_group(state, ask, faults).1;
            reply.member_id == Some(ask.member_id) && reply.heartbeat_interval_ms > 0
        }),
{
}

/// A topic is created exactly if it does not exist and has no more replicas than
/// there are brokers, counting at least one; otherwise the answer says which of
/// the two does not hold, the first before the second.
pub proof fn law_creations_are_answered(state: ClusterView, topic: NewTopicView)
    ensures
        ({
            let code = topics::creation_code(state, topic, Seq::empty());
            let brokers: int = if state.ports.len() == 0 {
                1
            } else if state.ports.len() > 32_767 {
                32_767
            } else {
                state.ports.len() as int
            };
            code == (if state.created.contains_key(topic.name) {
                36i16
            } else if topic.replication_factor > brokers {
                38i16
            } else {
                0i16
            })
        }),
{
}

/// A fetch is answered for every topic and every partition that it names, in its
/// order and under its names.
pub proof fn law_every_fetched_partition_is_answered(
    state: ClusterView,
    ask: FetchAskView,
    api_version: i16,
    oldest: i16,
    i: int,
    j: int,
)
    requires
        0 <= i < ask.topics.len(),
        0 <= j < ask.topics[i].partitions.len(),
    ensures
        ({
            let reply = log::spec_fetch(state, ask, api_version, oldest, Seq::empty());
            let topic: FetchTopicView = ask.topics[i];
            &&& reply.error_code == 0
            &&& reply.responses.len() == ask.topics.len()
            &&& reply.responses[i].topic == topic.topic
            &&& reply.responses[i].topic_id == topic.topic_id
            &&& reply.responses[i].partitions.len() == topic.partitions.len()
            &&& reply.responses[i].partitions[j].partition_index == topic.partitions[j].partition
        }),
{
}

} // verus!

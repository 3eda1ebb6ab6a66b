//! Who coordinates a group, and the offsets its coordinator keeps.

use vstd::prelude::*;
use vstd::string::*;

use crate::subject::log::NO_LEADER_EPOCH;
use crate::subject::replies::{
    CodedPartition, CommittedTopic, CommittedTopicView, CoordinatorReply, CoordinatorReplyView,
    EndpointReply, EndpointReplyView, FindCoordinatorReply, FindCoordinatorReplyView,
    OffsetCommitReply, OffsetCommitReplyView, OffsetFetchReply, OffsetFetchReplyView, OffsetRow,
    OffsetRowView, OffsetRows, OffsetRowsView, OffsetsOfGroup, OffsetsOfGroupView,
};
use crate::subject::requests::{
    CommitPartition, CommitPartitionView, CommitTopicView, FindCoordinatorAsk,
    FindCoordinatorAskView, OffsetCommitAsk, OffsetCommitAskView, OffsetFetchAsk,
    OffsetFetchAskView, OffsetGroupView, OffsetTopic, OffsetTopicView,
};
use crate::subject::state;
use crate::subject::state::{copy_text, ClusterState, ClusterView, Commit, CommitView, OffsetKey};
use crate::subject::{injected, Fault};
use crate::text;
use crate::text::line;
use crate::wire;
use crate::wire::{
    FIND_COORDINATOR_BATCHED, NONE, NOT_COORDINATOR, OFFSET_FETCH_BATCHED, TopicId, UNSET_OFFSET,
};

verus! {

/// The node that is named as a key's coordinator: a property of the key, not
/// of who was asked.
pub open spec fn spec_owner(
    state: ClusterView,
    key: Seq<char>,
    node_id: i32,
    faults: Seq<Fault>,
) -> i32 {
    if faults.contains(Fault::CoordinatorIsWhoeverAsked) {
        node_id
    } else {
        state.placement(key)
    }
}

fn owner(state: &ClusterState, key: &str, node_id: i32, faults: &Vec<Fault>) -> (r: i32)
    ensures
        r == spec_owner(state@, key@, node_id, faults@),
{
    if injected(faults, Fault::CoordinatorIsWhoeverAsked) {
        node_id
    } else {
        state.placement(key)
    }
}

/// The answer for one key of several.
pub open spec fn spec_coordinator(
    state: ClusterView,
    key: Seq<char>,
    node_id: i32,
    faults: Seq<Fault>,
) -> CoordinatorReplyView {
    let owner = spec_owner(state, key, node_id, faults);
    CoordinatorReplyView {
        key: if faults.contains(Fault::FindCoordinatorWrongKey) {
            key + "-not-yours"@
        } else {
            key
        },
        node_id: owner,
        host: "127.0.0.1"@,
        port: state.port_of(owner),
        error_code: NONE,
    }
}

/// What FindCoordinator answers: one coordinator, or from the version that
/// batched the keys on, one for each.
pub open spec fn spec_find_coordinator(
    state: ClusterView,
    ask: FindCoordinatorAskView,
    api_version: i16,
    node_id: i32,
    faults: Seq<Fault>,
) -> FindCoordinatorReplyView {
    if api_version >= FIND_COORDINATOR_BATCHED {
        FindCoordinatorReplyView {
            one: None,
            coordinators: ask.coordinator_keys.map_values(
                |key: Seq<char>| spec_coordinator(state, key, node_id, faults),
            ),
        }
    } else {
        let owner = spec_owner(state, ask.key, node_id, faults);
        FindCoordinatorReplyView {
            one: Some(
                EndpointReplyView {
                    error_code: NONE,
                    node_id: owner,
                    host: "127.0.0.1"@,
                    port: state.port_of(owner),
                },
            ),
            coordinators: Seq::empty(),
        }
    }
}

fn coordinator(state: &ClusterState, key: &String, node_id: i32, faults: &Vec<Fault>) -> (r:
    CoordinatorReply)
    ensures
        r@ == spec_coordinator(state@, key@, node_id, faults@),
{
    let node: i32 = owner(state, key.as_str(), node_id, faults);
    let echoed = if injected(faults, Fault::FindCoordinatorWrongKey) {
        line(key.as_str()).lit("-not-yours").done()
    } else {
        key.clone()
    };
    CoordinatorReply {
        key: echoed,
        node_id: node,
        host: String::from_str("127.0.0.1"),
        port: state.port_of(node),
        error_code: NONE,
    }
}

/// Answers FindCoordinator. Any broker can be asked, and every broker answers
/// the same.
pub fn find_coordinator(
    state: &ClusterState,
    ask: &FindCoordinatorAsk,
    api_version: i16,
    node_id: i32,
    faults: &Vec<Fault>,
) -> (r: FindCoordinatorReply)
    ensures
        r@ == spec_find_coordinator(state@, ask@, api_version, node_id, faults@),
{
    let mut coordinators: Vec<CoordinatorReply> = Vec::new();
    if api_version >= FIND_COORDINATOR_BATCHED {
        let mut i: usize = 0;
        while i < ask.coordinator_keys.len()
            invariant
                i <= ask.coordinator_keys@.len(),
                coordinators@.len() == i,
                forall|j: int|
                    0 <= j < i ==> (#[trigger] coordinators@[j])@ == spec_coordinator(
                        state@,
                        ask@.coordinator_keys[j],
                        node_id,
                        faults@,
                    ),
            decreases ask.coordinator_keys@.len() - i,
        {
            assert(ask@.coordinator_keys[i as int] == ask.coordinator_keys@[i as int]@);
            coordinators.push(coordinator(state, &ask.coordinator_keys[i], node_id, faults));
            i = i + 1;
        }
        let r = FindCoordinatorReply { one: None, coordinators };
        assert(r@.coordinators =~= spec_find_coordinator(
            state@,
            ask@,
            api_version,
            node_id,
            faults@,
        ).coordinators);
        r
    } else {
        let node: i32 = owner(state, ask.key.as_str(), node_id, faults);
        let r = FindCoordinatorReply {
            one: Some(
                EndpointReply {
                    error_code: NONE,
                    node_id: node,
                    host: String::from_str("127.0.0.1"),
                    port: state.port_of(node),
                },
            ),
            coordinators,
        };
        assert(r@.coordinators =~= Seq::empty());
        r
    }
}

/// The name under which offsets of a topic are kept: empty where neither a
/// name nor a known id is given.
pub open spec fn kept_under(state: ClusterView, name: Seq<char>, topic_id: Seq<u8>) -> Seq<char> {
    match state.resolve(name, topic_id) {
        Some(name) => name,
        None => ""@,
    }
}

fn keep_under(state: &ClusterState, name: &String, topic_id: &TopicId) -> (r: String)
    ensures
        r@ == kept_under(state@, name@, topic_id@),
{
    match state.resolve_topic(name, topic_id) {
        Some(name) => name,
        None => String::from_str(""),
    }
}

/// What is kept of a commit.
pub open spec fn kept_commit(partition: CommitPartitionView, faults: Seq<Fault>) -> CommitView {
    CommitView {
        offset: partition.committed_offset,
        metadata: if faults.contains(Fault::OffsetCommitDropsMetadata) {
            None
        } else {
            partition.committed_metadata
        },
    }
}

/// Committed offsets after those of one topic.
pub open spec fn commit_partitions(
    committed: Map<OffsetKey, CommitView>,
    group: Seq<char>,
    name: Seq<char>,
    partitions: Seq<CommitPartitionView>,
    faults: Seq<Fault>,
) -> Map<OffsetKey, CommitView>
    decreases partitions.len(),
{
    if partitions.len() == 0 {
        committed
    } else {
        let p = partitions.last();
        commit_partitions(committed, group, name, partitions.drop_last(), faults).insert(
            (group, name, p.partition_index),
            kept_commit(p, faults),
        )
    }
}

/// Committed offsets after those of several topics.
pub open spec fn commit_topics(
    state: ClusterView,
    group: Seq<char>,
    topics: Seq<CommitTopicView>,
    faults: Seq<Fault>,
) -> Map<OffsetKey, CommitView>
    decreases topics.len(),
{
    if topics.len() == 0 {
        state.committed
    } else {
        let t = topics.last();
        commit_partitions(
            commit_topics(state, group, topics.drop_last(), faults),
            group,
            kept_under(state, t.name, t.topic_id),
            t.partitions,
            faults,
        )
    }
}

/// A code for each partition of a commit.
pub open spec fn commit_codes(partitions: Seq<CommitPartitionView>, error_code: i16) -> Seq<
    CodedPartition,
> {
    partitions.map_values(
        |p: CommitPartitionView| CodedPartition { partition_index: p.partition_index, error_code },
    )
}

/// Whether a broker is asked about a group it does not coordinate.
pub open spec fn is_elsewhere(
    state: ClusterView,
    group: Seq<char>,
    node_id: i32,
    faults: Seq<Fault>,
) -> bool {
    state.placement(group) != node_id && !faults.contains(Fault::AnyBrokerServesGroups)
}

/// What OffsetCommit answers for one topic.
pub open spec fn spec_commit_topic(state: ClusterView, topic: CommitTopicView, elsewhere: bool)
    -> CommittedTopicView {
    CommittedTopicView {
        name: if elsewhere {
            topic.name
        } else {
            kept_under(state, topic.name, topic.topic_id)
        },
        topic_id: topic.topic_id,
        partitions: commit_codes(
            topic.partitions,
            if elsewhere {
                NOT_COORDINATOR
            } else {
                NONE
            },
        ),
    }
}

/// What OffsetCommit does and answers.
pub open spec fn spec_offset_commit(
    state: ClusterView,
    ask: OffsetCommitAskView,
    node_id: i32,
    faults: Seq<Fault>,
) -> (ClusterView, OffsetCommitReplyView) {
    let elsewhere = is_elsewhere(state, ask.group_id, node_id, faults);
    (
        if elsewhere {
            state
        } else {
            ClusterView { committed: commit_topics(state, ask.group_id, ask.topics, faults), ..state }
        },
        OffsetCommitReplyView {
            topics: ask.topics.map_values(
                |t: CommitTopicView| spec_commit_topic(state, t, elsewhere),
            ),
        },
    )
}

/// A code for each partition of a commit.
pub(crate) fn code_partitions(partitions: &Vec<CommitPartition>, error_code: i16) -> (r: Vec<CodedPartition>)
    ensures
        r@ == commit_codes(
            partitions@.map_values(|row: CommitPartition| row@),
            error_code,
        ),
{
    let mut rows: Vec<CodedPartition> = Vec::new();
    let mut i: usize = 0;
    while i < partitions.len()
        invariant
            i <= partitions@.len(),
            rows@.len() == i,
            forall|j: int|
                0 <= j < i ==> (#[trigger] rows@[j]) == (CodedPartition {
                    partition_index: partitions@[j].partition_index,
                    error_code,
                }),
        decreases partitions@.len() - i,
    {
        rows.push(CodedPartition { partition_index: partitions[i].partition_index, error_code });
        i = i + 1;
    }
    assert(rows@ =~= commit_codes(
        partitions@.map_values(|row: CommitPartition| row@),
        error_code,
    ));
    rows
}

fn keep_partitions(
    state: &mut ClusterState,
    group: &String,
    name: &String,
    partitions: &Vec<CommitPartition>,
    faults: &Vec<Fault>,
)
    ensures
        final(state)@ == (ClusterView {
            committed: commit_partitions(
                old(state)@.committed,
                group@,
                name@,
                partitions@.map_values(|row: CommitPartition| row@),
                faults@,
            ),
            ..old(state)@
        }),
{
    let ghost start = state@;
    let ghost all = partitions@.map_values(|row: CommitPartition| row@);
    let mut i: usize = 0;
    while i < partitions.len()
        invariant
            i <= partitions@.len(),
            start == old(state)@,
            all == partitions@.map_values(|row: CommitPartition| row@),
            state@ == (ClusterView {
                committed: commit_partitions(
                    start.committed,
                    group@,
                    name@,
                    all.take(i as int),
                    faults@,
                ),
                ..start
            }),
        decreases partitions@.len() - i,
    {
        assert(all.take(i + 1).drop_last() =~= all.take(i as int));
        let p = &partitions[i];
        assert(all[i as int] == p@);
        let metadata: Option<String> = if injected(faults, Fault::OffsetCommitDropsMetadata) {
            None
        } else {
            copy_text(&p.committed_metadata)
        };
        let commit = Commit { offset: p.committed_offset, metadata };
        assert(commit@ == kept_commit(p@, faults@));
        state.committed.insert((group.clone(), name.clone(), p.partition_index), commit);
        i = i + 1;
    }
    assert(all.take(i as int) =~= all);
}

/// Answers OffsetCommit, as one broker of the cluster. A group's offsets live
/// with its coordinator and nowhere else.
pub fn offset_commit(
    state: &mut ClusterState,
    ask: &OffsetCommitAsk,
    node_id: i32,
    faults: &Vec<Fault>,
) -> (r: OffsetCommitReply)
    ensures
        (final(state)@, r@) == spec_offset_commit(old(state)@, ask@, node_id, faults@),
{
    let elsewhere = state.placement(ask.group_id.as_str()) != node_id && !injected(
        faults,
        Fault::AnyBrokerServesGroups,
    );
    let ghost start = state@;
    let ghost all = ask@.topics;
    let mut topics: Vec<CommittedTopic> = Vec::new();
    let mut i: usize = 0;
    while i < ask.topics.len()
        invariant
            i <= ask.topics@.len(),
            start == old(state)@,
            all == ask@.topics,
            elsewhere == is_elsewhere(start, ask@.group_id, node_id, faults@),
            topics@.len() == i,
            forall|j: int|
                0 <= j < i ==> (#[trigger] topics@[j])@ == spec_commit_topic(
                    start,
                    all[j],
                    elsewhere,
                ),
            state@ == (if elsewhere {
                start
            } else {
                ClusterView {
                    committed: commit_topics(
                        start,
                        ask@.group_id,
                        all.take(i as int),
                        faults@,
                    ),
                    ..start
                }
            }),
        decreases ask.topics@.len() - i,
    {
        assert(all.take(i + 1).drop_last() =~= all.take(i as int));
        let topic = &ask.topics[i];
        assert(all[i as int] == topic@);
        if elsewhere {
            topics.push(
                CommittedTopic {
                    name: topic.name.clone(),
                    topic_id: topic.topic_id,
                    partitions: code_partitions(&topic.partitions, NOT_COORDINATOR),
                },
            );
        } else {
            let name = keep_under(state, &topic.name, &topic.topic_id);
            assert(name@ == kept_under(start, topic@.name, topic@.topic_id));
            keep_partitions(state, &ask.group_id, &name, &topic.partitions, faults);
            topics.push(
                CommittedTopic {
                    name,
                    topic_id: topic.topic_id,
                    partitions: code_partitions(&topic.partitions, NONE),
                },
            );
        }
        i = i + 1;
    }
    assert(all.take(i as int) =~= all);
    let r = OffsetCommitReply { topics };
    assert(r@.topics =~= spec_offset_commit(start, ask@, node_id, faults@).1.topics);
    r
}

/// What is said of a partition's committed offset: what was committed, or
/// that nothing was.
pub open spec fn spec_lookup(
    state: ClusterView,
    group: Seq<char>,
    name: Seq<char>,
    partition: i32,
    faults: Seq<Fault>,
) -> CommitView {
    let key = (group, name, partition);
    if state.committed.contains_key(key) {
        if faults.contains(Fault::OffsetFetchLosesCommit) {
            CommitView { offset: UNSET_OFFSET, metadata: None }
        } else {
            state.committed[key]
        }
    } else if faults.contains(Fault::OffsetFetchUnsetIsZero) {
        CommitView { offset: 0, metadata: None }
    } else {
        CommitView { offset: UNSET_OFFSET, metadata: None }
    }
}

fn lookup(state: &ClusterState, group: &String, name: &String, partition: i32, faults: &Vec<Fault>)
    -> (r: Commit)
    ensures
        r@ == spec_lookup(state@, group@, name@, partition, faults@),
{
    match state.committed.get(&(group.clone(), name.clone(), partition)) {
        Some(commit) => {
            if injected(faults, Fault::OffsetFetchLosesCommit) {
                Commit { offset: UNSET_OFFSET, metadata: None }
            } else {
                commit.copy()
            }
        },
        None => {
            if injected(faults, Fault::OffsetFetchUnsetIsZero) {
                Commit { offset: 0, metadata: None }
            } else {
                Commit { offset: UNSET_OFFSET, metadata: None }
            }
        },
    }
}

/// What OffsetFetch answers for one partition.
pub open spec fn spec_offset_row(
    state: ClusterView,
    group: Seq<char>,
    name: Seq<char>,
    partition: i32,
    faults: Seq<Fault>,
) -> OffsetRowView {
    let commit = spec_lookup(state, group, name, partition, faults);
    OffsetRowView {
        partition_index: partition,
        committed_offset: commit.offset,
        metadata: commit.metadata,
        committed_leader_epoch: NO_LEADER_EPOCH,
        error_code: NONE,
    }
}

/// What OffsetFetch answers for one topic, which only the batched shape can
/// name by id.
pub open spec fn spec_offset_topic(
    state: ClusterView,
    group: Seq<char>,
    topic: OffsetTopicView,
    batched: bool,
    faults: Seq<Fault>,
) -> OffsetRowsView {
    let name = if batched {
        kept_under(state, topic.name, topic.topic_id)
    } else {
        topic.name
    };
    OffsetRowsView {
        name: topic.name,
        topic_id: topic.topic_id,
        partitions: topic.partition_indexes.map_values(
            |p: i32| spec_offset_row(state, group, name, p, faults),
        ),
    }
}

/// What OffsetFetch answers for the topics of one group.
pub open spec fn spec_offset_topics(
    state: ClusterView,
    group: Seq<char>,
    topics: Option<Seq<OffsetTopicView>>,
    batched: bool,
    faults: Seq<Fault>,
) -> Seq<OffsetRowsView> {
    match topics {
        Some(topics) => topics.map_values(
            |t: OffsetTopicView| spec_offset_topic(state, group, t, batched, faults),
        ),
        None => Seq::empty(),
    }
}

/// What OffsetFetch answers for one group of several.
pub open spec fn spec_offset_group(
    state: ClusterView,
    group: OffsetGroupView,
    faults: Seq<Fault>,
) -> OffsetsOfGroupView {
    OffsetsOfGroupView {
        group_id: group.group_id,
        error_code: NONE,
        topics: spec_offset_topics(state, group.group_id, group.topics, true, faults),
    }
}

/// What OffsetFetch answers: from the version that batched the groups on, a
/// list of them.
pub open spec fn spec_offset_fetch(
    state: ClusterView,
    ask: OffsetFetchAskView,
    api_version: i16,
    faults: Seq<Fault>,
) -> OffsetFetchReplyView {
    if api_version >= OFFSET_FETCH_BATCHED {
        OffsetFetchReplyView {
            topics: Seq::empty(),
            groups: ask.groups.map_values(|g: OffsetGroupView| spec_offset_group(state, g, faults)),
        }
    } else {
        OffsetFetchReplyView {
            topics: spec_offset_topics(state, ask.group_id, ask.topics, false, faults),
            groups: Seq::empty(),
        }
    }
}

fn offset_topic(
    state: &ClusterState,
    group: &String,
    topic: &OffsetTopic,
    batched: bool,
    faults: &Vec<Fault>,
) -> (r: OffsetRows)
    ensures
        r@ == spec_offset_topic(state@, group@, topic@, batched, faults@),
{
    let name = if batched {
        keep_under(state, &topic.name, &topic.topic_id)
    } else {
        topic.name.clone()
    };
    let mut partitions: Vec<OffsetRow> = Vec::new();
    let mut i: usize = 0;
    while i < topic.partition_indexes.len()
        invariant
            i <= topic.partition_indexes@.len(),
            partitions@.len() == i,
            forall|j: int|
                0 <= j < i ==> (#[trigger] partitions@[j])@ == spec_offset_row(
                    state@,
                    group@,
                    name@,
                    topic.partition_indexes@[j],
                    faults@,
                ),
        decreases topic.partition_indexes@.len() - i,
    {
        let partition: i32 = topic.partition_indexes[i];
        let commit = lookup(state, group, &name, partition, faults);
        partitions.push(
            OffsetRow {
                partition_index: partition,
                committed_offset: commit.offset,
                metadata: commit.metadata,
                committed_leader_epoch: NO_LEADER_EPOCH,
                error_code: NONE,
            },
        );
        i = i + 1;
    }
    let r = OffsetRows { name: topic.name.clone(), topic_id: topic.topic_id, partitions };
    assert(r@.partitions =~= spec_offset_topic(
        state@,
        group@,
        topic@,
        batched,
        faults@,
    ).partitions);
    r
}

fn offset_topics(
    state: &ClusterState,
    group: &String,
    topics: &Option<Vec<OffsetTopic>>,
    batched: bool,
    faults: &Vec<Fault>,
) -> (r: Vec<OffsetRows>)
    ensures
        r@.map_values(|row: OffsetRows| row@) == spec_offset_topics(
            state@,
            group@,
            match *topics {
                Some(rows) => Some(rows@.map_values(|row: OffsetTopic| row@)),
                None => None,
            },
            batched,
            faults@,
        ),
{
    let mut rows: Vec<OffsetRows> = Vec::new();
    match topics {
        Some(topics) => {
            let ghost all = topics@.map_values(|row: OffsetTopic| row@);
            let mut i: usize = 0;
            while i < topics.len()
                invariant
                    i <= topics@.len(),
                    all == topics@.map_values(|row: OffsetTopic| row@),
                    rows@.len() == i,
                    forall|j: int|
                        0 <= j < i ==> (#[trigger] rows@[j])@ == spec_offset_topic(
                            state@,
                            group@,
                            all[j],
                            batched,
                            faults@,
                        ),
                decreases topics@.len() - i,
            {
                assert(all[i as int] == topics@[i as int]@);
                rows.push(offset_topic(state, group, &topics[i], batched, faults));
                i = i + 1;
            }
            assert(rows@.map_values(|row: OffsetRows| row@) =~= spec_offset_topics(
                state@,
                group@,
                Some(all),
                batched,
                faults@,
            ));
            rows
        },
        None => {
            assert(rows@.map_values(|row: OffsetRows| row@) =~= Seq::empty());
            rows
        },
    }
}

/// Answers OffsetFetch: what was committed, or that nothing was, which is no
/// error.
pub fn offset_fetch(
    state: &ClusterState,
    ask: &OffsetFetchAsk,
    api_version: i16,
    faults: &Vec<Fault>,
) -> (r: OffsetFetchReply)
    ensures
        r@ == spec_offset_fetch(state@, ask@, api_version, faults@),
{
    if api_version >= OFFSET_FETCH_BATCHED {
        let mut groups: Vec<OffsetsOfGroup> = Vec::new();
        let mut i: usize = 0;
        while i < ask.groups.len()
            invariant
                i <= ask.groups@.len(),
                groups@.len() == i,
                forall|j: int|
                    0 <= j < i ==> (#[trigger] groups@[j])@ == spec_offset_group(
                        state@,
                        ask@.groups[j],
                        faults@,
                    ),
            decreases ask.groups@.len() - i,
        {
            let group = &ask.groups[i];
            assert(ask@.groups[i as int] == group@);
            let topics = offset_topics(state, &group.group_id, &group.topics, true, faults);
            groups.push(
                OffsetsOfGroup { group_id: group.group_id.clone(), error_code: NONE, topics },
            );
            i = i + 1;
        }
        let r = OffsetFetchReply { topics: Vec::new(), groups };
        assert(r@.topics =~= Seq::empty());
        assert(r@.groups =~= spec_offset_fetch(state@, ask@, api_version, faults@).groups);
        r
    } else {
        let topics = offset_topics(state, &ask.group_id, &ask.topics, false, faults);
        let r = OffsetFetchReply { topics, groups: Vec::new() };
        assert(r@.groups =~= Seq::empty());
        r
    }
}

} // verus!

//! Looking things up in answers.

use vstd::prelude::*;
use vstd::string::*;

use crate::text;
use crate::text::{line, same_bytes, same_text};
use crate::wire;
use crate::wire::{
    AssignedTopic, BrokerRow, CommitTopic, CommittedGroup, CommittedTopic, DescribedRow,
    ErrorCode, FetchAnswer, FetchedRow, FindCoordinatorAnswer, MetadataAnswer, OffsetTopic,
    PartitionRow, TopicId, TopicRow, FIND_COORDINATOR_BATCHED, OFFSETS_BY_TOPIC_ID,
};

verus! {

/// The first element that `p` holds of.
pub open spec fn first_where<T>(s: Seq<T>, p: spec_fn(T) -> bool) -> Option<T>
    decreases s.len(),
{
    if s.len() == 0 {
        None
    } else if p(s[0]) {
        Some(s[0])
    } else {
        first_where(s.skip(1), p)
    }
}

/// The first element, if there is one.
pub open spec fn head<T>(s: Seq<T>) -> Option<T> {
    if s.len() == 0 {
        None
    } else {
        Some(s[0])
    }
}

/// What was found, without the borrow.
pub open spec fn found<T>(r: Option<&T>) -> Option<T> {
    match r {
        Some(t) => Some(*t),
        None => None,
    }
}

pub fn first<T>(rows: &Vec<T>) -> (r: Option<&T>)
    ensures
        found(r) == head(rows@),
{
    if rows.len() == 0 {
        None
    } else {
        Some(&rows[0])
    }
}

/// What `first_where` finds from place `i` on.
proof fn lemma_first_step<T>(s: Seq<T>, p: spec_fn(T) -> bool, i: int)
    requires
        0 <= i < s.len(),
    ensures
        first_where(s.skip(i), p) == (if p(s[i]) {
            Some(s[i])
        } else {
            first_where(s.skip(i + 1), p)
        }),
{
    assert(s.skip(i).skip(1) =~= s.skip(i + 1));
}

pub open spec fn is_named(name: Seq<char>) -> spec_fn(TopicRow) -> bool {
    |t: TopicRow| wire::opt_view(t.name) == Some(name)
}

/// The entry for a topic, by name.
pub fn topic_named<'a>(topics: &'a Vec<TopicRow>, name: &str) -> (r: Option<&'a TopicRow>)
    ensures
        found(r) == first_where(topics@, is_named(name@)),
{
    let mut i: usize = 0;
    assert(topics@.skip(0) =~= topics@);
    while i < topics.len()
        invariant
            i <= topics@.len(),
            first_where(topics@, is_named(name@)) == first_where(
                topics@.skip(i as int),
                is_named(name@),
            ),
        decreases topics@.len() - i,
    {
        proof {
            lemma_first_step(topics@, is_named(name@), i as int);
        }
        let hit = match &topics[i].name {
            Some(n) => same_text(n.as_str(), name),
            None => false,
        };
        if hit {
            return Some(&topics[i]);
        }
        i = i + 1;
    }
    None
}

pub open spec fn is_partition(index: i32) -> spec_fn(PartitionRow) -> bool {
    |p: PartitionRow| p.index == index
}

/// The entry for a partition, by index.
pub fn partition_at(rows: &Vec<PartitionRow>, index: i32) -> (r: Option<&PartitionRow>)
    ensures
        found(r) == first_where(rows@, is_partition(index)),
{
    let mut i: usize = 0;
    assert(rows@.skip(0) =~= rows@);
    while i < rows.len()
        invariant
            i <= rows@.len(),
            first_where(rows@, is_partition(index)) == first_where(
                rows@.skip(i as int),
                is_partition(index),
            ),
        decreases rows@.len() - i,
    {
        proof {
            lemma_first_step(rows@, is_partition(index), i as int);
        }
        if rows[i].index == index {
            return Some(&rows[i]);
        }
        i = i + 1;
    }
    None
}

pub open spec fn has_node(node_id: i32) -> spec_fn(BrokerRow) -> bool {
    |b: BrokerRow| b.node_id == node_id
}

/// The entry for a broker, by node id.
pub fn broker_with(rows: &Vec<BrokerRow>, node_id: i32) -> (r: Option<&BrokerRow>)
    ensures
        found(r) == first_where(rows@, has_node(node_id)),
{
    let mut i: usize = 0;
    assert(rows@.skip(0) =~= rows@);
    while i < rows.len()
        invariant
            i <= rows@.len(),
            first_where(rows@, has_node(node_id)) == first_where(
                rows@.skip(i as int),
                has_node(node_id),
            ),
        decreases rows@.len() - i,
    {
        proof {
            lemma_first_step(rows@, has_node(node_id), i as int);
        }
        if rows[i].node_id == node_id {
            return Some(&rows[i]);
        }
        i = i + 1;
    }
    None
}

/// A host and port something could be reached at.
pub open spec fn reachable(host: Seq<char>, port: i32) -> bool {
    host.len() > 0 && 1 <= port <= 65535
}

pub fn is_reachable(host: &String, port: i32) -> (r: bool)
    ensures
        r == reachable(host@, port),
{
    !host.as_str().is_empty() && port >= 1 && port <= 65535
}

pub open spec fn endpoint(host: Seq<char>, port: i32) -> Seq<char> {
    host + ":"@ + text::dec(port as int)
}

pub fn endpoint_text(host: &String, port: i32) -> (r: String)
    ensures
        r@ == endpoint(host@, port),
{
    line(host.as_str()).lit(":").num(port as i64).done()
}

pub open spec fn broker_endpoint(broker: Option<BrokerRow>) -> Option<Seq<char>> {
    match broker {
        Some(b) => if reachable(b.host@, b.port) {
            Some(endpoint(b.host@, b.port))
        } else {
            None
        },
        None => None,
    }
}

fn endpoint_of(broker: Option<&BrokerRow>) -> (r: Option<String>)
    ensures
        wire::opt_view(r) == broker_endpoint(found(broker)),
{
    match broker {
        Some(b) => if is_reachable(&b.host, b.port) {
            Some(endpoint_text(&b.host, b.port))
        } else {
            None
        },
        None => None,
    }
}

/// Partition 0 of a topic, where the answer describes it without an error.
pub open spec fn sound_partition(answer: MetadataAnswer, topic: Seq<char>) -> Option<PartitionRow> {
    match first_where(answer.topics@, is_named(topic)) {
        None => None,
        Some(entry) => if !entry.error.ok() {
            None
        } else {
            match first_where(entry.partitions@, is_partition(0)) {
                None => None,
                Some(p) => if p.error.ok() { Some(p) } else { None },
            }
        },
    }
}

pub fn partition_zero<'a>(answer: &'a MetadataAnswer, topic: &str) -> (r: Option<&'a PartitionRow>)
    ensures
        found(r) == sound_partition(*answer, topic@),
{
    match topic_named(&answer.topics, topic) {
        None => None,
        Some(entry) => if !entry.error.is_ok() {
            None
        } else {
            match partition_at(&entry.partitions, 0) {
                None => None,
                Some(p) => if p.error.is_ok() { Some(p) } else { None },
            }
        },
    }
}

/// Where the broker leading partition 0 of `topic` is, or `None` while
/// leadership is still settling.
pub open spec fn spec_leader_address(answer: MetadataAnswer, topic: Seq<char>) -> Option<Seq<char>> {
    match sound_partition(answer, topic) {
        None => None,
        Some(p) => broker_endpoint(first_where(answer.brokers@, has_node(p.leader_id))),
    }
}

pub fn leader_address(answer: &MetadataAnswer, topic: &str) -> (r: Option<String>)
    ensures
        wire::opt_view(r) == spec_leader_address(*answer, topic@),
{
    match partition_zero(answer, topic) {
        None => None,
        Some(p) => endpoint_of(broker_with(&answer.brokers, p.leader_id)),
    }
}

/// Where the controller is, or `None` where the answer names none it knows.
pub open spec fn spec_controller_address(answer: MetadataAnswer) -> Option<Seq<char>> {
    broker_endpoint(first_where(answer.brokers@, has_node(answer.controller_id)))
}

pub fn controller_address(answer: &MetadataAnswer) -> (r: Option<String>)
    ensures
        wire::opt_view(r) == spec_controller_address(*answer),
{
    endpoint_of(broker_with(&answer.brokers, answer.controller_id))
}

/// The answer describes the topic, without an error and with partitions.
pub open spec fn knows_topic(answer: MetadataAnswer, topic: Seq<char>) -> bool {
    match first_where(answer.topics@, is_named(topic)) {
        None => false,
        Some(entry) => entry.error.ok() && entry.partitions@.len() > 0,
    }
}

pub fn is_topic_known(answer: &MetadataAnswer, topic: &str) -> (r: bool)
    ensures
        r == knows_topic(*answer, topic@),
{
    match topic_named(&answer.topics, topic) {
        None => false,
        Some(entry) => entry.error.is_ok() && entry.partitions.len() > 0,
    }
}

/// The error a FindCoordinator answer reports, from whichever shape the
/// version used; `None` where the batched shape names nothing, which counts
/// as no error.
pub open spec fn spec_coordinator_error(answer: FindCoordinatorAnswer, version: i16) -> Option<
    ErrorCode,
> {
    if version >= FIND_COORDINATOR_BATCHED {
        match head(answer.coordinators@) {
            Some(c) => Some(c.error),
            None => None,
        }
    } else {
        Some(answer.error)
    }
}

pub fn coordinator_error(answer: &FindCoordinatorAnswer, version: i16) -> (r: Option<&ErrorCode>)
    ensures
        found(r) == spec_coordinator_error(*answer, version),
{
    if version >= FIND_COORDINATOR_BATCHED {
        match first(&answer.coordinators) {
            Some(c) => Some(&c.error),
            None => None,
        }
    } else {
        Some(&answer.error)
    }
}

/// Codes that mean "ask again shortly", not "no".
pub open spec fn settling_code(code: i16) -> bool {
    code == wire::COORDINATOR_NOT_AVAILABLE || code == wire::COORDINATOR_LOAD_IN_PROGRESS
}

pub fn is_coordinator_settling(code: i16) -> (r: bool)
    ensures
        r == settling_code(code),
{
    code == wire::COORDINATOR_NOT_AVAILABLE || code == wire::COORDINATOR_LOAD_IN_PROGRESS
}

pub open spec fn coordinator_settling(answer: FindCoordinatorAnswer, version: i16) -> bool {
    match spec_coordinator_error(answer, version) {
        Some(e) => settling_code(e.code),
        None => false,
    }
}

pub fn still_settling(answer: &FindCoordinatorAnswer, version: i16) -> (r: bool)
    ensures
        r == coordinator_settling(*answer, version),
{
    match coordinator_error(answer, version) {
        Some(e) => is_coordinator_settling(e.code),
        None => false,
    }
}

/// The endpoint a FindCoordinator answer names, or `None` if it named
/// nothing usable.
pub open spec fn spec_coordinator_endpoint(answer: FindCoordinatorAnswer, version: i16) -> Option<
    Seq<char>,
> {
    if version >= FIND_COORDINATOR_BATCHED {
        match head(answer.coordinators@) {
            Some(c) => if reachable(c.host@, c.port) {
                Some(endpoint(c.host@, c.port))
            } else {
                None
            },
            None => None,
        }
    } else if reachable(answer.host@, answer.port) {
        Some(endpoint(answer.host@, answer.port))
    } else {
        None
    }
}

pub fn coordinator_endpoint(answer: &FindCoordinatorAnswer, version: i16) -> (r: Option<String>)
    ensures
        wire::opt_view(r) == spec_coordinator_endpoint(*answer, version),
{
    if version >= FIND_COORDINATOR_BATCHED {
        match first(&answer.coordinators) {
            Some(c) => if is_reachable(&c.host, c.port) {
                Some(endpoint_text(&c.host, c.port))
            } else {
                None
            },
            None => None,
        }
    } else if is_reachable(&answer.host, answer.port) {
        Some(endpoint_text(&answer.host, answer.port))
    } else {
        None
    }
}

/// The first partition of the first topic.
pub open spec fn first_of_first<T>(topics: Seq<Vec<T>>) -> Option<T> {
    match head(topics) {
        Some(rows) => head(rows@),
        None => None,
    }
}

pub fn first_row<T>(topics: &Vec<Vec<T>>) -> (r: Option<&T>)
    ensures
        found(r) == first_of_first(topics@),
{
    match first(topics) {
        Some(rows) => first(rows),
        None => None,
    }
}

pub open spec fn first_fetched(answer: FetchAnswer) -> Option<FetchedRow> {
    match head(answer.topics@) {
        Some(t) => head(t.partitions@),
        None => None,
    }
}

pub fn fetched_row(answer: &FetchAnswer) -> (r: Option<&FetchedRow>)
    ensures
        found(r) == first_fetched(*answer),
{
    match first(&answer.topics) {
        Some(t) => first(&t.partitions),
        None => None,
    }
}

pub open spec fn offsets_named(name: Seq<char>) -> spec_fn(OffsetTopic) -> bool {
    |t: OffsetTopic| t.name@ == name
}

pub fn offsets_of<'a>(topics: &'a Vec<OffsetTopic>, name: &str) -> (r: Option<&'a OffsetTopic>)
    ensures
        found(r) == first_where(topics@, offsets_named(name@)),
{
    let mut i: usize = 0;
    assert(topics@.skip(0) =~= topics@);
    while i < topics.len()
        invariant
            i <= topics@.len(),
            first_where(topics@, offsets_named(name@)) == first_where(
                topics@.skip(i as int),
                offsets_named(name@),
            ),
        decreases topics@.len() - i,
    {
        proof {
            lemma_first_step(topics@, offsets_named(name@), i as int);
        }
        if same_text(topics[i].name.as_str(), name) {
            return Some(&topics[i]);
        }
        i = i + 1;
    }
    None
}

pub open spec fn commit_for(version: i16, name: Seq<char>, id: TopicId) -> spec_fn(CommitTopic) -> bool {
    |t: CommitTopic|
        if version >= OFFSETS_BY_TOPIC_ID {
            t.topic_id@ == id@
        } else {
            t.name@ == name
        }
}

/// The entry of an OffsetCommit answer for a topic, by what the version
/// addresses it with.
pub fn commit_entry<'a>(
    topics: &'a Vec<CommitTopic>,
    version: i16,
    name: &str,
    id: &TopicId,
) -> (r: Option<&'a CommitTopic>)
    ensures
        found(r) == first_where(topics@, commit_for(version, name@, *id)),
{
    let mut i: usize = 0;
    assert(topics@.skip(0) =~= topics@);
    while i < topics.len()
        invariant
            i <= topics@.len(),
            first_where(topics@, commit_for(version, name@, *id)) == first_where(
                topics@.skip(i as int),
                commit_for(version, name@, *id),
            ),
        decreases topics@.len() - i,
    {
        proof {
            lemma_first_step(topics@, commit_for(version, name@, *id), i as int);
        }
        let hit = if version >= OFFSETS_BY_TOPIC_ID {
            same_bytes(topics[i].topic_id.as_slice(), id.as_slice())
        } else {
            same_text(topics[i].name.as_str(), name)
        };
        if hit {
            return Some(&topics[i]);
        }
        i = i + 1;
    }
    None
}

pub open spec fn committed_for(version: i16, name: Seq<char>, id: TopicId) -> spec_fn(
    CommittedTopic,
) -> bool {
    |t: CommittedTopic|
        if version >= OFFSETS_BY_TOPIC_ID {
            t.topic_id@ == id@
        } else {
            t.name@ == name
        }
}

/// The entry of an OffsetFetch answer for a topic.
pub fn committed_entry<'a>(
    topics: &'a Vec<CommittedTopic>,
    version: i16,
    name: &str,
    id: &TopicId,
) -> (r: Option<&'a CommittedTopic>)
    ensures
        found(r) == first_where(topics@, committed_for(version, name@, *id)),
{
    let mut i: usize = 0;
    assert(topics@.skip(0) =~= topics@);
    while i < topics.len()
        invariant
            i <= topics@.len(),
            first_where(topics@, committed_for(version, name@, *id)) == first_where(
                topics@.skip(i as int),
                committed_for(version, name@, *id),
            ),
        decreases topics@.len() - i,
    {
        proof {
            lemma_first_step(topics@, committed_for(version, name@, *id), i as int);
        }
        let hit = if version >= OFFSETS_BY_TOPIC_ID {
            same_bytes(topics[i].topic_id.as_slice(), id.as_slice())
        } else {
            same_text(topics[i].name.as_str(), name)
        };
        if hit {
            return Some(&topics[i]);
        }
        i = i + 1;
    }
    None
}

pub open spec fn for_group(group: Seq<char>) -> spec_fn(CommittedGroup) -> bool {
    |g: CommittedGroup| g.group_id@ == group
}

pub fn group_entry<'a>(groups: &'a Vec<CommittedGroup>, group: &str) -> (r: Option<
    &'a CommittedGroup,
>)
    ensures
        found(r) == first_where(groups@, for_group(group@)),
{
    let mut i: usize = 0;
    assert(groups@.skip(0) =~= groups@);
    while i < groups.len()
        invariant
            i <= groups@.len(),
            first_where(groups@, for_group(group@)) == first_where(
                groups@.skip(i as int),
                for_group(group@),
            ),
        decreases groups@.len() - i,
    {
        proof {
            lemma_first_step(groups@, for_group(group@), i as int);
        }
        if same_text(groups[i].group_id.as_str(), group) {
            return Some(&groups[i]);
        }
        i = i + 1;
    }
    None
}

pub open spec fn described_as(group: Seq<char>) -> spec_fn(DescribedRow) -> bool {
    |g: DescribedRow| g.group_id@ == group
}

pub fn described_entry<'a>(groups: &'a Vec<DescribedRow>, group: &str) -> (r: Option<
    &'a DescribedRow,
>)
    ensures
        found(r) == first_where(groups@, described_as(group@)),
{
    let mut i: usize = 0;
    assert(groups@.skip(0) =~= groups@);
    while i < groups.len()
        invariant
            i <= groups@.len(),
            first_where(groups@, described_as(group@)) == first_where(
                groups@.skip(i as int),
                described_as(group@),
            ),
        decreases groups@.len() - i,
    {
        proof {
            lemma_first_step(groups@, described_as(group@), i as int);
        }
        if same_text(groups[i].group_id.as_str(), group) {
            return Some(&groups[i]);
        }
        i = i + 1;
    }
    None
}

pub open spec fn assigns(id: TopicId) -> spec_fn(AssignedTopic) -> bool {
    |t: AssignedTopic| t.topic_id@ == id@
}

pub fn assigned_entry<'a>(topics: &'a Vec<AssignedTopic>, id: &TopicId) -> (r: Option<
    &'a AssignedTopic,
>)
    ensures
        found(r) == first_where(topics@, assigns(*id)),
{
    let mut i: usize = 0;
    assert(topics@.skip(0) =~= topics@);
    while i < topics.len()
        invariant
            i <= topics@.len(),
            first_where(topics@, assigns(*id)) == first_where(topics@.skip(i as int), assigns(*id)),
        decreases topics@.len() - i,
    {
        proof {
            lemma_first_step(topics@, assigns(*id), i as int);
        }
        if same_bytes(topics[i].topic_id.as_slice(), id.as_slice()) {
            return Some(&topics[i]);
        }
        i = i + 1;
    }
    None
}

/// Whether a number is in the list.
pub fn has_i32(list: &Vec<i32>, wanted: i32) -> (r: bool)
    ensures
        r == list@.contains(wanted),
{
    let mut i: usize = 0;
    while i < list.len()
        invariant
            i <= list@.len(),
            forall|j: int| 0 <= j < i ==> list@[j] != wanted,
        decreases list@.len() - i,
    {
        if list[i] == wanted {
            return true;
        }
        i = i + 1;
    }
    false
}

/// Whether a number is in the list.
pub fn has_i64(list: &Vec<i64>, wanted: i64) -> (r: bool)
    ensures
        r == list@.contains(wanted),
{
    let mut i: usize = 0;
    while i < list.len()
        invariant
            i <= list@.len(),
            forall|j: int| 0 <= j < i ==> list@[j] != wanted,
        decreases list@.len() - i,
    {
        if list[i] == wanted {
            return true;
        }
        i = i + 1;
    }
    false
}

/// A text is in the list.
pub open spec fn lists(list: Seq<String>, wanted: Seq<char>) -> bool {
    exists|i: int| 0 <= i < list.len() && (#[trigger] list[i])@ == wanted
}

pub fn has_text_in(list: &Vec<String>, wanted: &str) -> (r: bool)
    ensures
        r == lists(list@, wanted@),
{
    let mut i: usize = 0;
    while i < list.len()
        invariant
            i <= list@.len(),
            forall|j: int| 0 <= j < i ==> (#[trigger] list@[j])@ != wanted@,
        decreases list@.len() - i,
    {
        if same_text(list[i].as_str(), wanted) {
            return true;
        }
        i = i + 1;
    }
    false
}

/// The numbers of a list, without repetition.
pub open spec fn all_different(list: Seq<i32>) -> bool {
    forall|i: int, j: int| 0 <= i < j < list.len() ==> list[i] != list[j]
}

/// Whether no number occurs twice.
pub fn is_all_different(list: &Vec<i32>) -> (r: bool)
    ensures
        r == all_different(list@),
{
    let mut i: usize = 0;
    while i < list.len()
        invariant
            i <= list@.len(),
            forall|a: int, b: int| 0 <= a < i && a < b < list@.len() ==> list@[a] != list@[b],
        decreases list@.len() - i,
    {
        let mut j: usize = i + 1;
        while j < list.len()
            invariant
                i < j <= list@.len(),
                forall|b: int| i < b < j ==> list@[i as int] != list@[b],
            decreases list@.len() - j,
        {
            if list[i] == list[j] {
                return false;
            }
            j = j + 1;
        }
        i = i + 1;
    }
    true
}

} // verus!

//! What the reference subject's brokers share, and where each thing lives.

use std::collections::{HashMap, HashSet};

use vstd::prelude::*;
use vstd::string::*;

use crate::subject::{injected, Fault};
use crate::table::{Pool, Table};
use crate::text;
use crate::wire;
use crate::wire::TopicId;

verus! {

/// The node id of the broker a client bootstraps against.
pub const BROKER_NODE_ID: i32 = 1;

/// How many brokers the reference subject presents. Three, because what
/// matters most about a cluster cannot be asked of a cluster of one, and with
/// two "some other broker" is always the same one.
pub const NODES: usize = 3;

/// The last batch one producer wrote to a partition.
#[derive(Debug, Clone, Copy)]
pub struct LastBatch {
    pub base_sequence: i32,
    /// The sequence the producer's next batch must start at.
    pub next_sequence: i32,
    pub base_offset: i64,
}

impl View for LastBatch {
    type V = LastBatch;

    open spec fn view(&self) -> LastBatch {
        *self
    }
}

/// One partition's log: appended record sets, the next offset to assign, and
/// what transactions have done to it.
#[derive(Debug)]
pub struct PartitionLog {
    pub bytes: Vec<u8>,
    pub next_offset: i64,
    /// Producers with a transaction open here, and the offset their first
    /// record landed at.
    pub open: HashMap<i64, i64>,
    /// Transactions that were aborted, by producer and first offset.
    pub aborted: Vec<(i64, i64)>,
    /// What each producer last wrote here. Keeping the offset as well as the
    /// sequence lets a recognized retry be answered with where it landed.
    pub last_batch: HashMap<i64, LastBatch>,
}

#[verifier::ext_equal]
pub struct LogView {
    pub bytes: Seq<u8>,
    pub next_offset: i64,
    pub open: Map<i64, i64>,
    pub aborted: Seq<(i64, i64)>,
    pub last_batch: Map<i64, LastBatch>,
}

impl View for PartitionLog {
    type V = LogView;

    open spec fn view(&self) -> LogView {
        LogView {
            bytes: self.bytes@,
            next_offset: self.next_offset,
            open: self.open@,
            aborted: self.aborted@,
            last_batch: self.last_batch@,
        }
    }
}

/// A log that nothing was written to.
pub open spec fn empty_log() -> LogView {
    LogView {
        bytes: Seq::empty(),
        next_offset: 0,
        open: Map::empty(),
        aborted: Seq::empty(),
        last_batch: Map::empty(),
    }
}

/// Whether an offset is the least of those that open transactions begin at.
pub open spec fn is_first_open(open: Map<i64, i64>, offset: i64) -> bool {
    &&& exists|p: i64| #[trigger] open.contains_key(p) && open[p] == offset
    &&& forall|p: i64| #[trigger] open.contains_key(p) ==> offset <= open[p]
}

impl LogView {
    /// The last stable offset: where the first transaction begins that has
    /// not finished, or the end of the log where there is none.
    pub open spec fn stable_offset(self) -> i64 {
        if exists|p: i64| #[trigger] self.open.contains_key(p) {
            choose|offset: i64| is_first_open(self.open, offset)
        } else {
            self.next_offset
        }
    }
}

proof fn lemma_first_open_unique(open: Map<i64, i64>, a: i64, b: i64)
    requires
        is_first_open(open, a),
        is_first_open(open, b),
    ensures
        a == b,
{
}

impl PartitionLog {
    /// A log that nothing was written to.
    pub fn new() -> (r: PartitionLog)
        ensures
            r@ == empty_log(),
    {
        PartitionLog {
            bytes: Vec::new(),
            next_offset: 0,
            open: HashMap::new(),
            aborted: Vec::new(),
            last_batch: HashMap::new(),
        }
    }

    /// The last stable offset: the first offset of a transaction that has not
    /// finished, or the end of the log where none is open.
    pub fn last_stable_offset(&self) -> (r: i64)
        ensures
            r == self@.stable_offset(),
    {
        let mut least: Option<i64> = None;
        for offset in starts: self.open.values()
            invariant
                starts.seq().unref().to_set() == self.open@.values(),
                match least {
                    None => starts.index() == 0,
                    Some(least) => {
                        &&& self.open@.values().contains(least)
                        &&& forall|k: int|
                            0 <= k < starts.index() ==> least <= #[trigger] starts.seq().unref()[k]
                    },
                },
        {
            proof {
                let all = starts.seq().unref();
                assert(all[starts.index() as int] == *offset);
                assert(all.contains(*offset));
                assert(all.to_set().contains(*offset));
            }
            let sooner = match least {
                Some(known) => *offset < known,
                None => true,
            };
            if sooner {
                least = Some(*offset);
            }
        }
        match least {
            Some(least) => {
                proof {
                    assert forall|p: i64| #[trigger] self.open@.contains_key(p) implies least
                        <= self.open@[p] by {
                        assert(self.open@.values().contains(self.open@[p]));
                    }
                    assert(is_first_open(self@.open, least));
                    lemma_first_open_unique(self@.open, least, self@.stable_offset());
                }
                least
            },
            None => {
                assert forall|p: i64| !self.open@.contains_key(p) by {
                    if self.open@.contains_key(p) {
                        assert(self.open@.values().contains(self.open@[p]));
                    }
                }
                self.next_offset
            },
        }
    }
}

/// A committed offset with the client's own words beside it.
#[derive(Debug)]
pub struct Commit {
    pub offset: i64,
    pub metadata: Option<String>,
}

#[verifier::ext_equal]
pub struct CommitView {
    pub offset: i64,
    pub metadata: Option<Seq<char>>,
}

impl View for Commit {
    type V = CommitView;

    open spec fn view(&self) -> CommitView {
        CommitView { offset: self.offset, metadata: wire::opt_view(self.metadata) }
    }
}

impl Commit {
    /// The same commit again.
    pub fn copy(&self) -> (r: Commit)
        ensures
            r@ == self@,
    {
        Commit { offset: self.offset, metadata: copy_text(&self.metadata) }
    }
}

/// The same text again, where there is one.
pub fn copy_text(text: &Option<String>) -> (r: Option<String>)
    ensures
        r == *text,
{
    match text {
        Some(text) => Some(text.clone()),
        None => None,
    }
}

/// The same bytes again.
pub fn copy_bytes(bytes: &Vec<u8>) -> (r: Vec<u8>)
    ensures
        r@ == bytes@,
{
    let mut copy: Vec<u8> = Vec::new();
    let mut i: usize = 0;
    while i < bytes.len()
        invariant
            i <= bytes@.len(),
            copy@ == bytes@.take(i as int),
        decreases bytes@.len() - i,
    {
        copy.push(bytes[i]);
        i = i + 1;
        assert(copy@ =~= bytes@.take(i as int));
    }
    assert(bytes@.take(i as int) =~= bytes@);
    copy
}

/// One transactional id's state, as the coordinator sees it.
#[derive(Debug)]
pub struct TxnState {
    pub producer_id: i64,
    pub epoch: i16,
    /// Partitions announced for the transaction currently open.
    pub partitions: Pool<(String, i32)>,
    /// Offsets committed inside the open transaction, held back until it
    /// commits.
    pub pending_offsets: Table<(String, String, i32), Commit>,
}

#[verifier::ext_equal]
pub struct TxnView {
    pub producer_id: i64,
    pub epoch: i16,
    pub partitions: Set<(Seq<char>, i32)>,
    pub pending_offsets: Map<(Seq<char>, Seq<char>, i32), CommitView>,
}

impl View for TxnState {
    type V = TxnView;

    open spec fn view(&self) -> TxnView {
        TxnView {
            producer_id: self.producer_id,
            epoch: self.epoch,
            partitions: self.partitions@,
            pending_offsets: self.pending_offsets@,
        }
    }
}

/// One consumer group of the classic protocol.
#[derive(Debug)]
pub struct GroupState {
    /// The fence: every request after the join carries it.
    pub generation_id: i32,
    /// Members in join order; the first is the leader.
    pub members: Vec<String>,
    pub protocol_type: String,
    pub protocol_name: String,
    /// Set by the leader, handed back verbatim.
    pub assignments: Table<String, Vec<u8>>,
    /// Member ids minted for a join that had none, awaiting the rejoin.
    pub minted: Vec<String>,
}

#[verifier::ext_equal]
pub struct GroupView {
    pub generation_id: i32,
    pub members: Seq<Seq<char>>,
    pub protocol_type: Seq<char>,
    pub protocol_name: Seq<char>,
    pub assignments: Map<Seq<char>, Seq<u8>>,
    pub minted: Seq<Seq<char>>,
}

impl View for GroupState {
    type V = GroupView;

    open spec fn view(&self) -> GroupView {
        GroupView {
            generation_id: self.generation_id,
            members: text::views(self.members@),
            protocol_type: self.protocol_type@,
            protocol_name: self.protocol_name@,
            assignments: self.assignments@,
            minted: text::views(self.minted@),
        }
    }
}

/// A group that nobody has joined.
pub open spec fn empty_group() -> GroupView {
    GroupView {
        generation_id: 0,
        members: Seq::empty(),
        protocol_type: ""@,
        protocol_name: ""@,
        assignments: Map::empty(),
        minted: Seq::empty(),
    }
}

impl GroupState {
    /// A group that nobody has joined.
    pub fn new() -> (r: GroupState)
        ensures
            r@ == empty_group(),
    {
        let r = GroupState {
            generation_id: 0,
            members: Vec::new(),
            protocol_type: String::from_str(""),
            protocol_name: String::from_str(""),
            assignments: Table::new(),
            minted: Vec::new(),
        };
        assert(r@ =~= empty_group());
        r
    }
}

/// One member of a consumer group whose coordinator assigns. The member names
/// itself; an omitted subscription means unchanged; assignments are addressed
/// by topic id.
#[derive(Debug)]
pub struct Member {
    pub epoch: i32,
    /// The last subscription the member stated.
    pub subscribed: Vec<String>,
    /// The topics this member was last told it has, where it was told any.
    /// Each stands for the topic's one partition.
    pub told: Option<Vec<TopicId>>,
}

/// Topic ids by their bytes.
pub open spec fn id_views(ids: Seq<TopicId>) -> Seq<Seq<u8>> {
    ids.map_values(|id: TopicId| id@)
}

#[verifier::ext_equal]
pub struct MemberView {
    pub epoch: i32,
    pub subscribed: Seq<Seq<char>>,
    pub told: Option<Seq<Seq<u8>>>,
}

impl View for Member {
    type V = MemberView;

    open spec fn view(&self) -> MemberView {
        MemberView {
            epoch: self.epoch,
            subscribed: text::views(self.subscribed@),
            told: match self.told {
                Some(ids) => Some(id_views(ids@)),
                None => None,
            },
        }
    }
}

/// A member that was never heard of.
pub open spec fn new_member() -> MemberView {
    MemberView { epoch: 0, subscribed: Seq::empty(), told: None }
}

impl Member {
    /// A member that was never heard of.
    pub fn new() -> (r: Member)
        ensures
            r@ == new_member(),
    {
        let r = Member { epoch: 0, subscribed: Vec::new(), told: None };
        assert(r@ =~= new_member());
        r
    }
}

/// Broker state, shared by every connection to the subject.
#[derive(Debug)]
pub struct ClusterState {
    pub logs: Table<(String, i32), PartitionLog>,
    /// Topic ids minted by CreateTopics, with the names they stand for.
    pub topic_names: Table<TopicId, String>,
    /// Committed offsets, by group, topic and partition.
    pub committed: Table<(String, String, i32), Commit>,
    /// Consumer groups of the classic protocol.
    pub groups: Table<String, GroupState>,
    /// Members of groups whose coordinator assigns, by group and member id.
    pub members: Table<(String, String), Member>,
    /// Transactions by transactional id.
    pub txns: Table<String, TxnState>,
    /// The last producer id handed out.
    pub next_producer_id: i64,
    /// Topics that CreateTopics created, with their ids. A topic can exist
    /// and be empty.
    pub created: Table<String, TopicId>,
    /// The port each broker listens on, by node id minus one.
    pub ports: Vec<i32>,
    /// The faults this subject exhibits.
    pub faults: Vec<Fault>,
    /// Nodes currently stopped.
    pub down: HashSet<i32>,
}

pub type OffsetKey = (Seq<char>, Seq<char>, i32);

#[verifier::ext_equal]
pub struct ClusterView {
    pub logs: Map<(Seq<char>, i32), LogView>,
    pub topic_names: Map<Seq<u8>, Seq<char>>,
    pub committed: Map<OffsetKey, CommitView>,
    pub groups: Map<Seq<char>, GroupView>,
    pub members: Map<(Seq<char>, Seq<char>), MemberView>,
    pub txns: Map<Seq<char>, TxnView>,
    pub next_producer_id: i64,
    pub created: Map<Seq<char>, Seq<u8>>,
    pub ports: Seq<i32>,
    pub faults: Seq<Fault>,
    pub down: Set<i32>,
}

impl View for ClusterState {
    type V = ClusterView;

    open spec fn view(&self) -> ClusterView {
        ClusterView {
            logs: self.logs@,
            topic_names: self.topic_names@,
            committed: self.committed@,
            groups: self.groups@,
            members: self.members@,
            txns: self.txns@,
            next_producer_id: self.next_producer_id,
            created: self.created@,
            ports: self.ports@,
            faults: self.faults@,
            down: self.down@,
        }
    }
}

/// A cluster that nothing has happened to.
pub open spec fn fresh_cluster(ports: Seq<i32>, faults: Seq<Fault>) -> ClusterView {
    ClusterView {
        logs: Map::empty(),
        topic_names: Map::empty(),
        committed: Map::empty(),
        groups: Map::empty(),
        members: Map::empty(),
        txns: Map::empty(),
        next_producer_id: 0,
        created: Map::empty(),
        ports,
        faults,
        down: Set::empty(),
    }
}

/// The node id of the `i`th broker: one past its place, and where that does
/// not fit, the bootstrap broker's.
pub open spec fn spec_node_at(i: int) -> i32 {
    if 0 <= i < i32::MAX {
        (i + 1) as i32
    } else {
        BROKER_NODE_ID
    }
}

fn node_at(i: usize) -> (r: i32)
    ensures
        r == spec_node_at(i as int),
{
    if i < 0x7fff_ffff {
        (i + 1) as i32
    } else {
        BROKER_NODE_ID
    }
}

/// A name's hash, by which it is placed: an offset, and for each byte an
/// exclusive or and a multiplication.
pub open spec fn name_hash(bytes: Seq<u8>) -> u64
    decreases bytes.len(),
{
    if bytes.len() == 0 {
        HASH_START
    } else {
        (name_hash(bytes.drop_last()) ^ (bytes.last() as u64)).wrapping_mul(HASH_FACTOR)
    }
}

pub const HASH_START: u64 = 0xcbf2_9ce4_8422_2325;
pub const HASH_FACTOR: u64 = 0x0000_0100_0000_01b3;

fn hash_name(name: &str) -> (r: u64)
    ensures
        r == name_hash(vstd::utf8::encode_utf8(name@)),
{
    let bytes = name.as_bytes_vec();
    let mut acc: u64 = HASH_START;
    let mut i: usize = 0;
    while i < bytes.len()
        invariant
            i <= bytes@.len(),
            acc == name_hash(bytes@.take(i as int)),
        decreases bytes@.len() - i,
    {
        assert(bytes@.take(i + 1).drop_last() =~= bytes@.take(i as int));
        acc = (acc ^ (bytes[i] as u64)).wrapping_mul(HASH_FACTOR);
        i = i + 1;
    }
    assert(bytes@.take(i as int) =~= bytes@);
    acc
}

/// The candidate that a name is placed on.
pub open spec fn spec_placement_over(key: Seq<char>, candidates: Seq<i32>) -> i32 {
    if candidates.len() == 0 {
        BROKER_NODE_ID
    } else {
        candidates[(name_hash(vstd::utf8::encode_utf8(key)) as int) % (candidates.len() as int)]
    }
}

impl ClusterView {
    /// Every node id, in order.
    pub open spec fn node_ids(self) -> Seq<i32> {
        Seq::new(self.ports.len(), |i: int| spec_node_at(i))
    }

    /// The node ids that are up, in order.
    pub open spec fn live(self) -> Seq<i32> {
        self.node_ids().filter(|id: i32| !self.down.contains(id))
    }

    /// Which node leads every partition of a topic, or coordinates a group or
    /// a transactional id.
    pub open spec fn placement(self, key: Seq<char>) -> i32 {
        spec_placement_over(key, self.live())
    }

    /// The port of a node, 0 where there is no such node.
    pub open spec fn port_of(self, node_id: i32) -> i32 {
        if 1 <= node_id <= self.ports.len() {
            self.ports[node_id - 1]
        } else {
            0
        }
    }

    /// The name of a topic that is named or, where the name is empty, given
    /// by id.
    pub open spec fn resolve(self, name: Seq<char>, topic_id: Seq<u8>) -> Option<Seq<char>> {
        if name.len() > 0 {
            Some(name)
        } else if self.topic_names.contains_key(topic_id) {
            Some(self.topic_names[topic_id])
        } else {
            None
        }
    }
}

/// The node that a name is placed on among some candidates. A hash of the
/// name rather than anything stored, so it is the same answer from every
/// broker without any agreement between them.
pub fn placement_over(key: &str, candidates: &Vec<i32>) -> (r: i32)
    ensures
        r == spec_placement_over(key@, candidates@),
{
    if candidates.len() == 0 {
        return BROKER_NODE_ID;
    }
    let index: u64 = hash_name(key) % (candidates.len() as u64);
    candidates[index as usize]
}

impl ClusterState {
    /// A cluster that nothing has happened to, listening on some ports.
    pub fn new(ports: Vec<i32>, faults: Vec<Fault>) -> (r: ClusterState)
        ensures
            r@ == fresh_cluster(ports@, faults@),
    {
        ClusterState {
            logs: Table::new(),
            topic_names: Table::new(),
            committed: Table::new(),
            groups: Table::new(),
            members: Table::new(),
            txns: Table::new(),
            next_producer_id: 0,
            created: Table::new(),
            ports,
            faults,
            down: HashSet::new(),
        }
    }

    /// Every node id, in order.
    pub fn node_ids(&self) -> (r: Vec<i32>)
        ensures
            r@ == self@.node_ids(),
    {
        let mut ids: Vec<i32> = Vec::new();
        let mut i: usize = 0;
        while i < self.ports.len()
            invariant
                i <= self.ports@.len(),
                ids@ == self@.node_ids().take(i as int),
            decreases self.ports@.len() - i,
        {
            ids.push(node_at(i));
            i = i + 1;
            assert(ids@ =~= self@.node_ids().take(i as int));
        }
        assert(self@.node_ids().take(i as int) =~= self@.node_ids());
        ids
    }

    /// The node ids that are up, in order.
    pub fn live(&self) -> (r: Vec<i32>)
        ensures
            r@ == self@.live(),
    {
        let ids = self.node_ids();
        let ghost up = |id: i32| !self@.down.contains(id);
        let mut live: Vec<i32> = Vec::new();
        let mut i: usize = 0;
        assert(ids@.take(0).filter(up) =~= Seq::empty()) by {
            reveal(Seq::filter);
        }
        while i < ids.len()
            invariant
                i <= ids@.len(),
                up == (|id: i32| !self@.down.contains(id)),
                live@ == ids@.take(i as int).filter(up),
            decreases ids@.len() - i,
        {
            proof {
                assert(ids@.take(i + 1).drop_last() =~= ids@.take(i as int));
                reveal(Seq::filter);
            }
            if !self.down.contains(&ids[i]) {
                live.push(ids[i]);
            }
            i = i + 1;
        }
        assert(ids@.take(i as int) =~= ids@);
        live
    }

    /// Which node leads every partition of a topic, or coordinates a group or
    /// a transactional id: only ever a broker that is up.
    pub fn placement(&self, key: &str) -> (r: i32)
        ensures
            r == self@.placement(key@),
    {
        placement_over(key, &self.live())
    }

    /// Whether a node is stopped.
    pub fn is_down(&self, node_id: i32) -> (r: bool)
        ensures
            r == self@.down.contains(node_id),
    {
        self.down.contains(&node_id)
    }

    /// The port a node id listens on.
    pub fn port_of(&self, node_id: i32) -> (r: i32)
        ensures
            r == self@.port_of(node_id),
    {
        if node_id < 1 {
            return 0;
        }
        let index: usize = (node_id - 1) as usize;
        if index < self.ports.len() {
            self.ports[index]
        } else {
            0
        }
    }

    /// The topic a request names, by name or, where that is empty, by id. One
    /// place, because whether a fetch can be satisfied and what it is
    /// answered have to agree about which log is being asked for.
    pub fn resolve_topic(&self, name: &String, topic_id: &TopicId) -> (r: Option<String>)
        ensures
            wire::opt_view(r) == self@.resolve(name@, topic_id@),
    {
        if name.as_str().unicode_len() > 0 {
            return Some(name.clone());
        }
        match self.topic_names.get(topic_id) {
            Some(found) => Some(found.clone()),
            None => None,
        }
    }

    /// Stops a broker. Committed offsets are replicated, so nothing is lost
    /// with it, unless the fault says that its groups' offsets go when it
    /// does.
    pub fn stop(&mut self, node_id: i32)
        ensures
            final(self)@ == spec_stop(old(self)@, node_id),
    {
        if injected(&self.faults, Fault::OffsetsDieWithTheirCoordinator) {
            let all = self.node_ids();
            let keys = self.committed.keys();
            let ghost start = self@;
            let mut i: usize = 0;
            while i < keys.len()
                invariant
                    i <= keys@.len(),
                    start == old(self)@,
                    all@ == start.node_ids(),
                    self@ == (ClusterView { committed: self@.committed, ..start }),
                    forall|k: int|
                        0 <= k < keys@.len() ==> start.committed.contains_key(
                            (#[trigger] keys@[k])@,
                        ),
                    forall|key: OffsetKey|
                        start.committed.contains_key(key) ==> exists|k: int|
                            0 <= k < keys@.len() && (#[trigger] keys@[k])@ == key,
                    forall|key: OffsetKey|
                        #![trigger self@.committed.contains_key(key)]
                        self@.committed.contains_key(key) <==> start.committed.contains_key(key)
                            && !(is_orphan(start, key, node_id) && exists|k: int|
                            0 <= k < i && (#[trigger] keys@[k])@ == key),
                    forall|key: OffsetKey|
                        self@.committed.contains_key(key) ==> #[trigger] self@.committed[key]
                            == start.committed[key],
                decreases keys@.len() - i,
            {
                let ghost before = self@.committed;
                let ghost here = keys@[i as int]@;
                if placement_over(keys[i].0.as_str(), &all) == node_id {
                    self.committed.remove(&keys[i]);
                }
                proof {
                    assert forall|key: OffsetKey|
                        #![trigger self@.committed.contains_key(key)]
                        self@.committed.contains_key(key) <==> start.committed.contains_key(key)
                            && !(is_orphan(start, key, node_id) && exists|k: int|
                            0 <= k < i + 1 && (#[trigger] keys@[k])@ == key) by {
                        assert(before.contains_key(key) <==> start.committed.contains_key(key)
                            && !(is_orphan(start, key, node_id) && exists|k: int|
                            0 <= k < i && (#[trigger] keys@[k])@ == key));
                        if key == here {
                            assert(keys@[i as int]@ == key);
                        }
                    }
                }
                i = i + 1;
            }
            assert(self@.committed =~= kept_offsets(start, node_id));
        }
        self.down.insert(node_id);
        assert(self@ =~= spec_stop(old(self)@, node_id));
    }

    /// Starts a broker again.
    pub fn start(&mut self, node_id: i32)
        ensures
            final(self)@ == spec_start(old(self)@, node_id),
    {
        self.down.remove(&node_id);
        assert(self@ =~= spec_start(old(self)@, node_id));
    }
}

/// Whether a commit was coordinated by a node, of all there are.
pub open spec fn is_orphan(state: ClusterView, key: OffsetKey, node_id: i32) -> bool {
    spec_placement_over(key.0, state.node_ids()) == node_id
}

/// The commits that a node did not coordinate.
pub open spec fn kept_offsets(state: ClusterView, node_id: i32) -> Map<OffsetKey, CommitView> {
    state.committed.restrict(
        Set::new(
            |key: OffsetKey| state.committed.contains_key(key) && !is_orphan(state, key, node_id),
        ),
    )
}

/// The cluster with a node stopped.
pub open spec fn spec_stop(state: ClusterView, node_id: i32) -> ClusterView {
    ClusterView {
        committed: if state.faults.contains(Fault::OffsetsDieWithTheirCoordinator) {
            kept_offsets(state, node_id)
        } else {
            state.committed
        },
        down: state.down.insert(node_id),
        ..state
    }
}

/// The cluster with a node started.
pub open spec fn spec_start(state: ClusterView, node_id: i32) -> ClusterView {
    ClusterView { down: state.down.remove(node_id), ..state }
}

} // verus!

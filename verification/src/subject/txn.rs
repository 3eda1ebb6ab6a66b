//! The transactions that the reference subject coordinates.

use vstd::prelude::*;
use vstd::string::*;

use crate::subject::offsets;
use crate::subject::offsets::code_partitions;
use crate::subject::replies::{
    CodedPartition, InitProducerIdReply, TxnCodedTopic, TxnCodedTopicView, TxnCodesReply,
    TxnCodesReplyView,
};
use crate::subject::requests::{
    AddOffsetsAsk, AddPartitionsAsk, AddPartitionsAskView, CommitPartitionView, EndTxnAsk,
    EndTxnAskView, InitProducerIdAsk, InitProducerIdAskView, TxnOffsetTopic, TxnOffsetTopicView,
    TxnOffsetsAsk, TxnOffsetsAskView, TxnTopic, TxnTopicView,
};
use crate::subject::state::{
    copy_text, ClusterState, ClusterView, Commit, CommitView, LogView, OffsetKey, PartitionLog,
    TxnState, TxnView,
};
use crate::subject::{injected, Fault};
use crate::table::{Key, Pool, Table};
use crate::wire;
use crate::wire::{INVALID_PRODUCER_ID_MAPPING, NONE, PRODUCER_FENCED};

verus! {

/// The epoch of a transactional id that was never claimed: the first claim
/// moves it, as every later one does.
pub const UNCLAIMED_EPOCH: i16 = -1;
/// What stands where there is no producer.
pub const NO_PRODUCER: i64 = -1;

/// A transactional id that was never claimed, with the producer id it gets.
pub open spec fn unclaimed(producer_id: i64) -> TxnView {
    TxnView {
        producer_id,
        epoch: UNCLAIMED_EPOCH,
        partitions: Set::empty(),
        pending_offsets: Map::empty(),
    }
}

/// The transaction of an id, unclaimed where there is none.
pub open spec fn txn_of(state: ClusterView, id: Seq<char>) -> TxnView {
    if state.txns.contains_key(id) {
        state.txns[id]
    } else {
        unclaimed(state.next_producer_id.wrapping_add(1))
    }
}

/// A transaction after its id was claimed: the epoch moves, and what the
/// predecessor announced and held back goes.
pub open spec fn claimed(txn: TxnView, faults: Seq<Fault>) -> TxnView {
    TxnView {
        epoch: if faults.contains(Fault::TxnInitReusesEpoch) {
            if txn.epoch > 0 {
                txn.epoch
            } else {
                0
            }
        } else {
            txn.epoch.wrapping_add(1)
        },
        partitions: Set::empty(),
        pending_offsets: Map::empty(),
        ..txn
    }
}

/// What InitProducerId does and answers. Without a transactional id, a fresh
/// producer id is all that was asked for. Taking over an id ends whatever the
/// predecessor left open, as an abort would.
pub open spec fn spec_init_producer_id(
    state: ClusterView,
    ask: InitProducerIdAskView,
    faults: Seq<Fault>,
) -> (ClusterView, InitProducerIdReply) {
    let next = state.next_producer_id.wrapping_add(1);
    match ask.transactional_id {
        None => (
            ClusterView { next_producer_id: next, ..state },
            InitProducerIdReply { error_code: NONE, producer_id: next, producer_epoch: 0 },
        ),
        Some(id) => {
            let txn = claimed(txn_of(state, id), faults);
            (
                ClusterView {
                    logs: if state.txns.contains_key(id) {
                        ended_logs(state.logs, txn.producer_id, false, faults)
                    } else {
                        state.logs
                    },
                    txns: state.txns.insert(id, txn),
                    next_producer_id: if txn.producer_id == next {
                        next
                    } else {
                        state.next_producer_id
                    },
                    ..state
                },
                InitProducerIdReply {
                    error_code: NONE,
                    producer_id: txn.producer_id,
                    producer_epoch: txn.epoch,
                },
            )
        },
    }
}

/// Answers InitProducerId: hands out a producer id, and a higher epoch every
/// time a transactional id changes hands.
pub fn init_producer_id(state: &mut ClusterState, ask: &InitProducerIdAsk, faults: &Vec<Fault>) -> (r:
    InitProducerIdReply)
    ensures
        (final(state)@, r) == spec_init_producer_id(old(state)@, ask@, faults@),
{
    let ghost start = state@;
    let next: i64 = state.next_producer_id.wrapping_add(1);
    match &ask.transactional_id {
        None => {
            state.next_producer_id = next;
            InitProducerIdReply { error_code: NONE, producer_id: next, producer_epoch: 0 }
        },
        Some(id) => {
            let predecessor: Option<i64> = match state.txns.get(id) {
                Some(txn) => Some(txn.producer_id),
                None => None,
            };
            if let Some(producer_id) = predecessor {
                end_logs(state, producer_id, false, faults);
            }
            let fresh = TxnState {
                producer_id: next,
                epoch: UNCLAIMED_EPOCH,
                partitions: Pool::new(),
                pending_offsets: Table::new(),
            };
            assert(fresh@ =~= unclaimed(next));
            let txn = state.txns.entry(id.clone(), fresh);
            let ghost before = txn@;
            if injected(faults, Fault::TxnInitReusesEpoch) {
                if txn.epoch < 0 {
                    txn.epoch = 0;
                }
            } else {
                txn.epoch = txn.epoch.wrapping_add(1);
            }
            txn.partitions = Pool::new();
            txn.pending_offsets = Table::new();
            assert(txn@ =~= claimed(before, faults@));
            let producer_id: i64 = txn.producer_id;
            let producer_epoch: i16 = txn.epoch;
            if producer_id == next {
                state.next_producer_id = next;
            }
            InitProducerIdReply { error_code: NONE, producer_id, producer_epoch }
        },
    }
}

/// Whether a transaction request's epoch is the current one, as a code.
pub open spec fn spec_epoch_check(
    state: ClusterView,
    id: Seq<char>,
    epoch: i16,
    faults: Seq<Fault>,
) -> i16 {
    if !state.txns.contains_key(id) {
        INVALID_PRODUCER_ID_MAPPING
    } else if faults.contains(Fault::TxnIgnoresProducerEpoch) || epoch == state.txns[id].epoch {
        NONE
    } else {
        PRODUCER_FENCED
    }
}

/// Whether a transaction request's epoch is the current one. A superseded one
/// means that another producer took the id.
pub fn txn_epoch_check(state: &ClusterState, id: &String, epoch: i16, faults: &Vec<Fault>) -> (r:
    i16)
    ensures
        r == spec_epoch_check(state@, id@, epoch, faults@),
{
    match state.txns.get(id) {
        None => INVALID_PRODUCER_ID_MAPPING,
        Some(txn) => {
            if injected(faults, Fault::TxnIgnoresProducerEpoch) || epoch == txn.epoch {
                NONE
            } else {
                PRODUCER_FENCED
            }
        },
    }
}

/// A code for each partition of a topic.
pub open spec fn coded(partitions: Seq<i32>, error_code: i16) -> Seq<CodedPartition> {
    partitions.map_values(|p: i32| CodedPartition { partition_index: p, error_code })
}

/// Announced partitions after those of one topic.
pub open spec fn announce_partitions(
    announced: Set<(Seq<char>, i32)>,
    name: Seq<char>,
    partitions: Seq<i32>,
) -> Set<(Seq<char>, i32)>
    decreases partitions.len(),
{
    if partitions.len() == 0 {
        announced
    } else {
        announce_partitions(announced, name, partitions.drop_last()).insert(
            (name, partitions.last()),
        )
    }
}

/// Announced partitions after those of several topics.
pub open spec fn announce_topics(
    announced: Set<(Seq<char>, i32)>,
    topics: Seq<TxnTopicView>,
) -> Set<(Seq<char>, i32)>
    decreases topics.len(),
{
    if topics.len() == 0 {
        announced
    } else {
        announce_partitions(
            announce_topics(announced, topics.drop_last()),
            topics.last().name,
            topics.last().partitions,
        )
    }
}

/// What AddPartitionsToTxn does and answers.
pub open spec fn spec_add_partitions(
    state: ClusterView,
    ask: AddPartitionsAskView,
    faults: Seq<Fault>,
) -> (ClusterView, TxnCodesReplyView) {
    let id = ask.transactional_id;
    let code = spec_epoch_check(state, id, ask.producer_epoch, faults);
    (
        if code == NONE {
            ClusterView {
                txns: state.txns.insert(
                    id,
                    TxnView {
                        partitions: announce_topics(state.txns[id].partitions, ask.topics),
                        ..state.txns[id]
                    },
                ),
                ..state
            }
        } else {
            state
        },
        TxnCodesReplyView {
            topics: ask.topics.map_values(
                |t: TxnTopicView|
                    TxnCodedTopicView { name: t.name, partitions: coded(t.partitions, code) },
            ),
        },
    )
}

fn code_all(partitions: &Vec<i32>, error_code: i16) -> (r: Vec<CodedPartition>)
    ensures
        r@ == coded(partitions@, error_code),
{
    let mut rows: Vec<CodedPartition> = Vec::new();
    let mut i: usize = 0;
    while i < partitions.len()
        invariant
            i <= partitions@.len(),
            rows@.len() == i,
            forall|j: int|
                0 <= j < i ==> (#[trigger] rows@[j]) == (CodedPartition {
                    partition_index: partitions@[j],
                    error_code,
                }),
        decreases partitions@.len() - i,
    {
        rows.push(CodedPartition { partition_index: partitions[i], error_code });
        i = i + 1;
    }
    assert(rows@ =~= coded(partitions@, error_code));
    rows
}

fn announce(announced: &mut Pool<(String, i32)>, topic: &TxnTopic)
    ensures
        final(announced)@ == announce_partitions(old(announced)@, topic@.name, topic@.partitions),
{
    let ghost start = announced@;
    let ghost all = topic.partitions@;
    let mut i: usize = 0;
    while i < topic.partitions.len()
        invariant
            i <= topic.partitions@.len(),
            start == old(announced)@,
            all == topic.partitions@,
            announced@ == announce_partitions(start, topic@.name, all.take(i as int)),
        decreases topic.partitions@.len() - i,
    {
        assert(all.take(i + 1).drop_last() =~= all.take(i as int));
        announced.insert((topic.name.clone(), topic.partitions[i]));
        i = i + 1;
    }
    assert(all.take(i as int) =~= all);
}

fn announce_all(txn: &mut TxnState, topics: &Vec<TxnTopic>)
    ensures
        final(txn)@ == (TxnView {
            partitions: announce_topics(
                old(txn)@.partitions,
                topics@.map_values(|row: TxnTopic| row@),
            ),
            ..old(txn)@
        }),
{
    let ghost start = txn@;
    let ghost all = topics@.map_values(|row: TxnTopic| row@);
    let mut i: usize = 0;
    while i < topics.len()
        invariant
            i <= topics@.len(),
            start == old(txn)@,
            all == topics@.map_values(|row: TxnTopic| row@),
            txn@ == (TxnView {
                partitions: announce_topics(start.partitions, all.take(i as int)),
                ..start
            }),
        decreases topics@.len() - i,
    {
        assert(all.take(i + 1).drop_last() =~= all.take(i as int));
        assert(all[i as int] == topics@[i as int]@);
        announce(&mut txn.partitions, &topics[i]);
        i = i + 1;
    }
    assert(all.take(i as int) =~= all);
}

/// Answers AddPartitionsToTxn: announces partitions to an open transaction.
pub fn add_partitions(state: &mut ClusterState, ask: &AddPartitionsAsk, faults: &Vec<Fault>) -> (r:
    TxnCodesReply)
    ensures
        (final(state)@, r@) == spec_add_partitions(old(state)@, ask@, faults@),
{
    let ghost start = state@;
    let code: i16 = txn_epoch_check(state, &ask.transactional_id, ask.producer_epoch, faults);
    if code == NONE {
        if let Some(txn) = state.txns.get_mut(&ask.transactional_id) {
            announce_all(txn, &ask.topics);
        }
    }
    let mut topics: Vec<TxnCodedTopic> = Vec::new();
    let mut i: usize = 0;
    while i < ask.topics.len()
        invariant
            i <= ask.topics@.len(),
            topics@.len() == i,
            forall|j: int|
                0 <= j < i ==> (#[trigger] topics@[j])@ == (TxnCodedTopicView {
                    name: ask@.topics[j].name,
                    partitions: coded(ask@.topics[j].partitions, code),
                }),
        decreases ask.topics@.len() - i,
    {
        assert(ask@.topics[i as int] == ask.topics@[i as int]@);
        topics.push(
            TxnCodedTopic {
                name: ask.topics[i].name.clone(),
                partitions: code_all(&ask.topics[i].partitions, code),
            },
        );
        i = i + 1;
    }
    let r = TxnCodesReply { topics };
    assert(r@.topics =~= spec_add_partitions(start, ask@, faults@).1.topics);
    r
}

/// Whether a finished transaction's records are disowned.
pub open spec fn disowned(committed: bool, faults: Seq<Fault>) -> bool {
    (!committed || faults.contains(Fault::TxnCommitMarksAborted)) && !faults.contains(
        Fault::TxnAbortListOmitted,
    )
}

/// A log after a producer's transaction ended: where it had one open, the
/// marker takes an offset of its own.
pub open spec fn ended_log(log: LogView, producer_id: i64, committed: bool, faults: Seq<Fault>)
    -> LogView {
    if log.open.contains_key(producer_id) {
        LogView {
            next_offset: log.next_offset.wrapping_add(1),
            open: log.open.remove(producer_id),
            aborted: if disowned(committed, faults) {
                log.aborted.push((producer_id, log.open[producer_id]))
            } else {
                log.aborted
            },
            ..log
        }
    } else {
        log
    }
}

/// All logs after a producer's transaction ended.
pub open spec fn ended_logs(
    logs: Map<(Seq<char>, i32), LogView>,
    producer_id: i64,
    committed: bool,
    faults: Seq<Fault>,
) -> Map<(Seq<char>, i32), LogView> {
    logs.map_values(|log: LogView| ended_log(log, producer_id, committed, faults))
}

/// What EndTxn does to a cluster where it is let through. The offsets go with
/// the transaction: published on commit, dropped on abort.
pub open spec fn end_of(
    state: ClusterView,
    id: Seq<char>,
    committed: bool,
    faults: Seq<Fault>,
) -> ClusterView {
    let txn = state.txns[id];
    ClusterView {
        logs: ended_logs(state.logs, txn.producer_id, committed, faults),
        committed: if committed {
            state.committed.union_prefer_right(txn.pending_offsets)
        } else {
            state.committed
        },
        txns: state.txns.insert(
            id,
            TxnView { partitions: Set::empty(), pending_offsets: Map::empty(), ..txn },
        ),
        ..state
    }
}

/// What EndTxn does and answers.
pub open spec fn spec_end_txn(state: ClusterView, ask: EndTxnAskView, faults: Seq<Fault>) -> (
    ClusterView,
    i16,
) {
    let code = spec_epoch_check(state, ask.transactional_id, ask.producer_epoch, faults);
    (
        if code == NONE {
            end_of(state, ask.transactional_id, ask.committed, faults)
        } else {
            state
        },
        code,
    )
}

fn end_log(log: &mut PartitionLog, producer_id: i64, committed: bool, faults: &Vec<Fault>)
    ensures
        final(log)@ == ended_log(old(log)@, producer_id, committed, faults@),
{
    let ghost start = log@;
    let first: Option<i64> = match log.open.get(&producer_id) {
        Some(offset) => Some(*offset),
        None => None,
    };
    if let Some(first_offset) = first {
        log.open.remove(&producer_id);
        log.next_offset = log.next_offset.wrapping_add(1);
        if (!committed || injected(faults, Fault::TxnCommitMarksAborted)) && !injected(
            faults,
            Fault::TxnAbortListOmitted,
        ) {
            log.aborted.push((producer_id, first_offset));
        }
    }
    assert(log@ =~= ended_log(start, producer_id, committed, faults@));
}

fn end_logs(state: &mut ClusterState, producer_id: i64, committed: bool, faults: &Vec<Fault>)
    ensures
        final(state)@ == (ClusterView {
            logs: ended_logs(old(state)@.logs, producer_id, committed, faults@),
            ..old(state)@
        }),
{
    let keys = state.logs.keys();
    let ghost start = state@;
    let mut i: usize = 0;
    while i < keys.len()
        invariant
            i <= keys@.len(),
            start == old(state)@,
            state@ == (ClusterView { logs: state@.logs, ..start }),
            forall|k: int|
                0 <= k < keys@.len() ==> start.logs.contains_key((#[trigger] keys@[k])@),
            forall|a: int, b: int|
                0 <= a < b < keys@.len() ==> (#[trigger] keys@[a])@ != (#[trigger] keys@[b])@,
            forall|key: (Seq<char>, i32)|
                start.logs.contains_key(key) ==> exists|k: int|
                    0 <= k < keys@.len() && (#[trigger] keys@[k])@ == key,
            state@.logs.dom() == start.logs.dom(),
            forall|k: int|
                0 <= k < keys@.len() ==> state@.logs[(#[trigger] keys@[k])@] == (if k < i {
                    ended_log(start.logs[keys@[k]@], producer_id, committed, faults@)
                } else {
                    start.logs[keys@[k]@]
                }),
        decreases keys@.len() - i,
    {
        let ghost before = state@.logs;
        let ghost here = keys@[i as int]@;
        assert(before.contains_key(here));
        if let Some(log) = state.logs.get_mut(&keys[i]) {
            end_log(log, producer_id, committed, faults);
        }
        proof {
            assert(state@.logs =~= before.insert(
                here,
                ended_log(start.logs[here], producer_id, committed, faults@),
            ));
            assert(state@.logs.dom() =~= start.logs.dom());
        }
        i = i + 1;
    }
    proof {
        let after = ended_logs(start.logs, producer_id, committed, faults@);
        assert forall|key: (Seq<char>, i32)| #[trigger]
            start.logs.contains_key(key) implies state@.logs[key] == after[key] by {
            let k = choose|k: int| 0 <= k < keys@.len() && (#[trigger] keys@[k])@ == key;
            assert(state@.logs[keys@[k]@] == ended_log(
                start.logs[keys@[k]@],
                producer_id,
                committed,
                faults@,
            ));
        }
        assert(state@.logs =~= after);
    }
}

fn publish(state: &mut ClusterState, pending: &Table<(String, String, i32), Commit>)
    ensures
        final(state)@ == (ClusterView {
            committed: old(state)@.committed.union_prefer_right(pending@),
            ..old(state)@
        }),
{
    let keys = pending.keys();
    let ghost start = state@;
    let mut i: usize = 0;
    while i < keys.len()
        invariant
            i <= keys@.len(),
            start == old(state)@,
            state@ == (ClusterView { committed: state@.committed, ..start }),
            forall|k: int|
                0 <= k < keys@.len() ==> pending@.contains_key((#[trigger] keys@[k])@),
            forall|key: OffsetKey|
                pending@.contains_key(key) ==> exists|k: int|
                    0 <= k < keys@.len() && (#[trigger] keys@[k])@ == key,
            forall|key: OffsetKey|
                #![trigger state@.committed.contains_key(key)]
                state@.committed.contains_key(key) <==> start.committed.contains_key(key) || exists|
                    k: int,
                | 0 <= k < i && (#[trigger] keys@[k])@ == key,
            forall|key: OffsetKey|
                #![trigger state@.committed[key]]
                state@.committed.contains_key(key) ==> state@.committed[key] == (if exists|k: int|
                    0 <= k < i && (#[trigger] keys@[k])@ == key {
                    pending@[key]
                } else {
                    start.committed[key]
                }),
        decreases keys@.len() - i,
    {
        let ghost before = state@.committed;
        let ghost here = keys@[i as int]@;
        if let Some(commit) = pending.get(&keys[i]) {
            state.committed.insert(Key::copy(&keys[i]), commit.copy());
        }
        proof {
            assert(state@.committed == before.insert(here, pending@[here]));
            assert forall|key: OffsetKey|
                #![trigger state@.committed.contains_key(key)]
                state@.committed.contains_key(key) <==> start.committed.contains_key(key) || exists|
                    k: int,
                | 0 <= k < i + 1 && (#[trigger] keys@[k])@ == key by {
                assert(before.contains_key(key) <==> start.committed.contains_key(key) || exists|
                    k: int,
                | 0 <= k < i && (#[trigger] keys@[k])@ == key);
                if key == here {
                    assert(keys@[i as int]@ == key);
                }
            }
            assert forall|key: OffsetKey|
                #![trigger state@.committed[key]]
                state@.committed.contains_key(key) implies state@.committed[key] == (if exists|
                k: int,
            | 0 <= k < i + 1 && (#[trigger] keys@[k])@ == key {
                pending@[key]
            } else {
                start.committed[key]
            }) by {
                if key == here {
                    assert(keys@[i as int]@ == key);
                } else {
                    assert(before.contains_key(key));
                    assert(before[key] == state@.committed[key]);
                }
            }
        }
        i = i + 1;
    }
    assert(state@.committed =~= start.committed.union_prefer_right(pending@));
}

/// Answers EndTxn: finishes a transaction, marking every partition that its
/// producer wrote to, announced or not.
pub fn end_txn(state: &mut ClusterState, ask: &EndTxnAsk, faults: &Vec<Fault>) -> (r: i16)
    ensures
        (final(state)@, r) == spec_end_txn(old(state)@, ask@, faults@),
{
    let ghost start = state@;
    let code: i16 = txn_epoch_check(state, &ask.transactional_id, ask.producer_epoch, faults);
    if code == NONE {
        let producer_id: i64 = match state.txns.get(&ask.transactional_id) {
            Some(txn) => txn.producer_id,
            None => NO_PRODUCER,
        };
        end_logs(state, producer_id, ask.committed, faults);
        let mut pending: Table<(String, String, i32), Commit> = Table::new();
        if let Some(txn) = state.txns.get_mut(&ask.transactional_id) {
            std::mem::swap(&mut pending, &mut txn.pending_offsets);
            txn.partitions = Pool::new();
        }
        if ask.committed {
            publish(state, &pending);
        }
        assert(state@ =~= end_of(start, ask@.transactional_id, ask.committed, faults@));
    }
    code
}

/// Answers AddOffsetsToTxn. There is nothing to record beyond the check, but
/// without it a fenced producer could enrol a group.
pub fn add_offsets(state: &ClusterState, ask: &AddOffsetsAsk, faults: &Vec<Fault>) -> (r: i16)
    ensures
        r == spec_epoch_check(
            state@,
            ask@.transactional_id,
            ask@.producer_epoch,
            faults@,
        ),
{
    txn_epoch_check(state, &ask.transactional_id, ask.producer_epoch, faults)
}

/// Offsets after those that a request holds for one topic.
pub open spec fn hold_partitions(
    offsets: Map<OffsetKey, CommitView>,
    group: Seq<char>,
    name: Seq<char>,
    partitions: Seq<CommitPartitionView>,
) -> Map<OffsetKey, CommitView>
    decreases partitions.len(),
{
    if partitions.len() == 0 {
        offsets
    } else {
        let p = partitions.last();
        hold_partitions(offsets, group, name, partitions.drop_last()).insert(
            (group, name, p.partition_index),
            CommitView { offset: p.committed_offset, metadata: p.committed_metadata },
        )
    }
}

/// Offsets after those that a request holds for several topics.
pub open spec fn hold_topics(
    offsets: Map<OffsetKey, CommitView>,
    group: Seq<char>,
    topics: Seq<TxnOffsetTopicView>,
) -> Map<OffsetKey, CommitView>
    decreases topics.len(),
{
    if topics.len() == 0 {
        offsets
    } else {
        hold_partitions(
            hold_topics(offsets, group, topics.drop_last()),
            group,
            topics.last().name,
            topics.last().partitions,
        )
    }
}

/// What TxnOffsetCommit does and answers: the offsets wait for the
/// transaction, unless the fault publishes them at once.
pub open spec fn spec_txn_offsets(state: ClusterView, ask: TxnOffsetsAskView, faults: Seq<Fault>)
    -> (ClusterView, TxnCodesReplyView) {
    let id = ask.transactional_id;
    let code = spec_epoch_check(state, id, ask.producer_epoch, faults);
    (
        if code != NONE {
            state
        } else if faults.contains(Fault::TxnOffsetsPublishImmediately) {
            ClusterView {
                committed: hold_topics(state.committed, ask.group_id, ask.topics),
                ..state
            }
        } else {
            ClusterView {
                txns: state.txns.insert(
                    id,
                    TxnView {
                        pending_offsets: hold_topics(
                            state.txns[id].pending_offsets,
                            ask.group_id,
                            ask.topics,
                        ),
                        ..state.txns[id]
                    },
                ),
                ..state
            }
        },
        TxnCodesReplyView {
            topics: ask.topics.map_values(
                |t: TxnOffsetTopicView|
                    TxnCodedTopicView { name: t.name, partitions: offsets::commit_codes(t.partitions, code) },
            ),
        },
    )
}

fn hold(
    offsets: &mut Table<(String, String, i32), Commit>,
    group: &String,
    topic: &TxnOffsetTopic,
)
    ensures
        final(offsets)@ == hold_partitions(
            old(offsets)@,
            group@,
            topic@.name,
            topic@.partitions,
        ),
{
    let ghost start = offsets@;
    let ghost all = topic@.partitions;
    let mut i: usize = 0;
    while i < topic.partitions.len()
        invariant
            i <= topic.partitions@.len(),
            start == old(offsets)@,
            all == topic@.partitions,
            offsets@ == hold_partitions(start, group@, topic@.name, all.take(i as int)),
        decreases topic.partitions@.len() - i,
    {
        assert(all.take(i + 1).drop_last() =~= all.take(i as int));
        let p = &topic.partitions[i];
        assert(all[i as int] == p@);
        offsets.insert(
            (group.clone(), topic.name.clone(), p.partition_index),
            Commit { offset: p.committed_offset, metadata: copy_text(&p.committed_metadata) },
        );
        i = i + 1;
    }
    assert(all.take(i as int) =~= all);
}

fn hold_all(
    offsets: &mut Table<(String, String, i32), Commit>,
    group: &String,
    topics: &Vec<TxnOffsetTopic>,
)
    ensures
        final(offsets)@ == hold_topics(
            old(offsets)@,
            group@,
            topics@.map_values(|row: TxnOffsetTopic| row@),
        ),
{
    let ghost start = offsets@;
    let ghost all = topics@.map_values(|row: TxnOffsetTopic| row@);
    let mut i: usize = 0;
    while i < topics.len()
        invariant
            i <= topics@.len(),
            start == old(offsets)@,
            all == topics@.map_values(|row: TxnOffsetTopic| row@),
            offsets@ == hold_topics(start, group@, all.take(i as int)),
        decreases topics@.len() - i,
    {
        assert(all.take(i + 1).drop_last() =~= all.take(i as int));
        assert(all[i as int] == topics@[i as int]@);
        hold(offsets, group, &topics[i]);
        i = i + 1;
    }
    assert(all.take(i as int) =~= all);
}

/// Answers TxnOffsetCommit: holds the offsets with the transaction.
pub fn txn_offset_commit(state: &mut ClusterState, ask: &TxnOffsetsAsk, faults: &Vec<Fault>) -> (r:
    TxnCodesReply)
    ensures
        (final(state)@, r@) == spec_txn_offsets(old(state)@, ask@, faults@),
{
    let ghost start = state@;
    let code: i16 = txn_epoch_check(state, &ask.transactional_id, ask.producer_epoch, faults);
    if code == NONE {
        if injected(faults, Fault::TxnOffsetsPublishImmediately) {
            hold_all(&mut state.committed, &ask.group_id, &ask.topics);
        } else if let Some(txn) = state.txns.get_mut(&ask.transactional_id) {
            hold_all(&mut txn.pending_offsets, &ask.group_id, &ask.topics);
        }
    }
    let mut topics: Vec<TxnCodedTopic> = Vec::new();
    let mut i: usize = 0;
    while i < ask.topics.len()
        invariant
            i <= ask.topics@.len(),
            topics@.len() == i,
            forall|j: int|
                0 <= j < i ==> (#[trigger] topics@[j])@ == (TxnCodedTopicView {
                    name: ask@.topics[j].name,
                    partitions: offsets::commit_codes(ask@.topics[j].partitions, code),
                }),
        decreases ask.topics@.len() - i,
    {
        assert(ask@.topics[i as int] == ask.topics@[i as int]@);
        topics.push(
            TxnCodedTopic {
                name: ask.topics[i].name.clone(),
                partitions: code_partitions(&ask.topics[i].partitions, code),
            },
        );
        i = i + 1;
    }
    let r = TxnCodesReply { topics };
    assert(r@.topics =~= spec_txn_offsets(start, ask@, faults@).1.topics);
    r
}

} // verus!

//! What the reference subject writes to its logs and reads back from them.

use vstd::prelude::*;
use vstd::string::*;

use crate::subject::replies::{
    FetchReply, FetchReplyView, FetchedLog, FetchedLogView, FetchedPartition,
    FetchedPartitionView, FetchedTopic, FetchedTopicView, ListOffsetsReply, ListOffsetsReplyView,
    ListedPartition, ListedTopic, ListedTopicView, ProduceReply, ProduceReplyView,
    ProducedPartition, ProducedTopic, ProducedTopicView,
};
use crate::subject::requests::{
    FetchAsk, FetchAskView, FetchPartition, FetchTopic, FetchTopicView, ListOffsetsAsk,
    ListOffsetsAskView, ListPartition, ListPartitionView, ListTopic, ListTopicView, ProduceAsk,
    ProduceAskView, ProducePartition, ProducePartitionView, ProduceTopic, ProduceTopicView,
};
use crate::subject::state;
use crate::subject::state::{
    copy_bytes, ClusterState, ClusterView, LastBatch, LogView, PartitionLog,
};
use crate::subject::{injected, Fault};
use crate::wire;
use crate::wire::{
    Record, RecordBatch, Records, TopicId, EARLIEST_TIMESTAMP, LATEST_TIMESTAMP, NONE,
    NOT_LEADER_OR_FOLLOWER, OFFSET_OUT_OF_RANGE, OUT_OF_ORDER_SEQUENCE_NUMBER, PRODUCER_FENCED,
    READ_COMMITTED, UNKNOWN_TOPIC_ID, UNKNOWN_TOPIC_OR_PARTITION,
};

verus! {

/// What stands where there is no offset to give.
pub const NO_OFFSET: i64 = -1;
/// What stands where there is no time to give.
pub const NO_TIME: i64 = -1;
/// What stands where no leader epoch is known.
pub const NO_LEADER_EPOCH: i32 = -1;

/// The first batch of a record set.
pub open spec fn first_batch(batches: Seq<RecordBatch>) -> Option<RecordBatch> {
    if batches.len() == 0 {
        None
    } else {
        Some(batches[0])
    }
}

/// How many offsets a record set takes up.
pub open spec fn appended(batches: Seq<RecordBatch>) -> i64
    decreases batches.len(),
{
    if batches.len() == 0 {
        0
    } else {
        appended(batches.drop_last()).wrapping_add((batches.last().last_offset_delta + 1) as i64)
    }
}

fn count_appended(batches: &Vec<RecordBatch>) -> (r: i64)
    ensures
        r == appended(batches@),
{
    let mut sum: i64 = 0;
    let mut i: usize = 0;
    while i < batches.len()
        invariant
            i <= batches@.len(),
            sum == appended(batches@.take(i as int)),
        decreases batches@.len() - i,
    {
        assert(batches@.take(i + 1).drop_last() =~= batches@.take(i as int));
        let taken: i64 = batches[i].last_offset_delta as i64 + 1;
        sum = sum.wrapping_add(taken);
        i = i + 1;
    }
    assert(batches@.take(i as int) =~= batches@);
    sum
}

/// Whether a batch is one that idempotence applies to.
pub open spec fn is_stamped(batch: RecordBatch) -> bool {
    batch.producer_id >= 0 && batch.base_sequence >= 0
}

/// Whether the partition leader refuses a write because its epoch has been
/// superseded. `epoch` is the current one of the transactional id, where the
/// write names one that is known.
pub open spec fn spec_fenced(
    epoch: Option<i16>,
    batch: Option<RecordBatch>,
    faults: Seq<Fault>,
) -> bool {
    match (epoch, batch) {
        (Some(epoch), Some(batch)) => !faults.contains(Fault::ProduceAcceptsFencedEpoch)
            && batch.producer_epoch < epoch,
        _ => false,
    }
}

fn fenced_at_the_leader(
    epoch: Option<i16>,
    batches: &Vec<RecordBatch>,
    faults: &Vec<Fault>,
) -> (r: bool)
    ensures
        r == spec_fenced(epoch, first_batch(batches@), faults@),
{
    match epoch {
        Some(epoch) => {
            batches.len() > 0 && !injected(faults, Fault::ProduceAcceptsFencedEpoch)
                && batches[0].producer_epoch < epoch
        },
        None => false,
    }
}

/// Whether a stamped batch skips ahead of, or falls behind, what the
/// partition last took from its producer.
pub open spec fn spec_out_of_order(
    log: LogView,
    batch: Option<RecordBatch>,
    faults: Seq<Fault>,
) -> bool {
    match batch {
        Some(batch) => {
            let known = log.last_batch[batch.producer_id];
            &&& !faults.contains(Fault::ProduceAcceptsSequenceGaps)
            &&& is_stamped(batch)
            &&& log.last_batch.contains_key(batch.producer_id)
            &&& batch.base_sequence != known.base_sequence
            &&& batch.base_sequence != known.next_sequence
        },
        None => false,
    }
}

/// A gap cannot be papered over: the broker cannot tell a batch that never
/// existed from one still in flight, so it refuses.
fn out_of_order(log: &PartitionLog, batches: &Vec<RecordBatch>, faults: &Vec<Fault>) -> (r: bool)
    ensures
        r == spec_out_of_order(log@, first_batch(batches@), faults@),
{
    if batches.len() == 0 || injected(faults, Fault::ProduceAcceptsSequenceGaps) {
        return false;
    }
    let batch = &batches[0];
    if batch.producer_id < 0 || batch.base_sequence < 0 {
        return false;
    }
    match log.last_batch.get(&batch.producer_id) {
        Some(known) => batch.base_sequence != known.base_sequence && batch.base_sequence
            != known.next_sequence,
        None => false,
    }
}

/// Where a batch landed the first time, when it repeats the last one its
/// producer wrote here.
pub open spec fn spec_duplicate_of(
    log: LogView,
    batch: Option<RecordBatch>,
    faults: Seq<Fault>,
) -> Option<i64> {
    match batch {
        Some(batch) => {
            let known = log.last_batch[batch.producer_id];
            if !faults.contains(Fault::ProduceAppendsIdempotentRetries) && is_stamped(batch)
                && log.last_batch.contains_key(batch.producer_id) && batch.base_sequence
                == known.base_sequence {
                Some(known.base_offset)
            } else {
                None
            }
        },
        None => None,
    }
}

fn duplicate_of(log: &PartitionLog, batches: &Vec<RecordBatch>, faults: &Vec<Fault>) -> (r: Option<
    i64,
>)
    ensures
        r == spec_duplicate_of(log@, first_batch(batches@), faults@),
{
    if batches.len() == 0 || injected(faults, Fault::ProduceAppendsIdempotentRetries) {
        return None;
    }
    let batch = &batches[0];
    if batch.producer_id < 0 || batch.base_sequence < 0 {
        return None;
    }
    match log.last_batch.get(&batch.producer_id) {
        Some(known) => if batch.base_sequence == known.base_sequence {
            Some(known.base_offset)
        } else {
            None
        },
        None => None,
    }
}

/// The fault that rewrites batches of a codec.
pub open spec fn rewriting_fault(attributes: i16) -> Option<Fault> {
    let codec = attributes & 7;
    if codec == 1 {
        Some(Fault::ProduceRewritesGzipBatches)
    } else if codec == 2 {
        Some(Fault::ProduceRewritesSnappyBatches)
    } else if codec == 3 {
        Some(Fault::ProduceRewritesLz4Batches)
    } else if codec == 4 {
        Some(Fault::ProduceRewritesZstdBatches)
    } else {
        None
    }
}

/// Whether a record set is rewritten before it is stored. Confined to
/// compressed batches, one codec to a fault.
pub open spec fn spec_rewrites(batch: Option<RecordBatch>, faults: Seq<Fault>) -> bool {
    match batch {
        Some(batch) => batch.records is Compressed && (match rewriting_fault(batch.attributes) {
            Some(fault) => faults.contains(fault),
            None => false,
        }),
        None => false,
    }
}

fn rewrites(batches: &Vec<RecordBatch>, faults: &Vec<Fault>) -> (r: bool)
    ensures
        r == spec_rewrites(first_batch(batches@), faults@),
{
    if batches.len() == 0 {
        return false;
    }
    match &batches[0].records {
        Records::Compressed { .. } => {
            let codec: i16 = batches[0].attributes & 7;
            if codec == 1 {
                injected(faults, Fault::ProduceRewritesGzipBatches)
            } else if codec == 2 {
                injected(faults, Fault::ProduceRewritesSnappyBatches)
            } else if codec == 3 {
                injected(faults, Fault::ProduceRewritesLz4Batches)
            } else if codec == 4 {
                injected(faults, Fault::ProduceRewritesZstdBatches)
            } else {
                false
            }
        },
        Records::Plain(_) => false,
    }
}

/// The max timestamp that a rewritten batch carries: a field that the
/// checksum covers, so the bytes stop being the produced ones.
pub fn restamped(max_timestamp: i64) -> (r: i64)
    ensures
        r == max_timestamp.wrapping_add(1),
{
    max_timestamp.wrapping_add(1)
}

/// The bytes that are stored for a record set.
pub open spec fn spec_stored(
    partition: ProducePartitionView,
    batches: Seq<RecordBatch>,
    faults: Seq<Fault>,
) -> Seq<u8> {
    let produced = match partition.records {
        Some(bytes) => bytes,
        None => Seq::empty(),
    };
    match partition.rewritten {
        Some(rewritten) => if spec_rewrites(first_batch(batches), faults) {
            rewritten
        } else {
            produced
        },
        None => produced,
    }
}

/// A write that is refused.
pub open spec fn refusal(index: i32, error_code: i16) -> ProducedPartition {
    ProducedPartition {
        index,
        error_code,
        base_offset: NO_OFFSET,
        log_append_time_ms: NO_TIME,
        log_start_offset: None,
    }
}

/// A write that stands, at an offset.
pub open spec fn acceptance(index: i32, base_offset: i64) -> ProducedPartition {
    ProducedPartition {
        index,
        error_code: NONE,
        base_offset,
        log_append_time_ms: NO_TIME,
        log_start_offset: Some(0),
    }
}

fn refuse(index: i32, error_code: i16) -> (r: ProducedPartition)
    ensures
        r == refusal(index, error_code),
{
    ProducedPartition {
        index,
        error_code,
        base_offset: NO_OFFSET,
        log_append_time_ms: NO_TIME,
        log_start_offset: None,
    }
}

fn accept(index: i32, base_offset: i64) -> (r: ProducedPartition)
    ensures
        r == acceptance(index, base_offset),
{
    ProducedPartition {
        index,
        error_code: NONE,
        base_offset,
        log_append_time_ms: NO_TIME,
        log_start_offset: Some(0),
    }
}

/// What a write carries from the request round it: the epoch of the
/// transactional id it names, where that is known; whether it names one; and
/// whether the partition was announced for it.
#[derive(Debug, Clone, Copy)]
pub struct WriteTerms {
    pub epoch: Option<i16>,
    pub transactional: bool,
    pub announced: bool,
}

/// The transactions open on a log after a write: a transactional write joins
/// its transaction, announced or not.
pub open spec fn open_after(
    log: LogView,
    batches: Seq<RecordBatch>,
    terms: WriteTerms,
    faults: Seq<Fault>,
) -> Map<i64, i64> {
    match first_batch(batches) {
        Some(batch) => if terms.transactional && batch.producer_id >= 0 && (terms.announced
            || !faults.contains(Fault::TxnUnannouncedWriteEscapes)) && !log.open.contains_key(
            batch.producer_id,
        ) {
            log.open.insert(batch.producer_id, log.next_offset)
        } else {
            log.open
        },
        None => log.open,
    }
}

/// A count of records as far as a sequence number can count.
pub open spec fn sequence_count(count: i64) -> i32 {
    if i32::MIN <= count <= i32::MAX {
        count as i32
    } else {
        i32::MAX
    }
}

/// What each producer last wrote to a log, after a write.
pub open spec fn last_batch_after(log: LogView, batches: Seq<RecordBatch>) -> Map<i64, LastBatch> {
    match first_batch(batches) {
        Some(batch) => if is_stamped(batch) {
            log.last_batch.insert(
                batch.producer_id,
                LastBatch {
                    base_sequence: batch.base_sequence,
                    next_sequence: batch.base_sequence.wrapping_add(
                        sequence_count(appended(batches)),
                    ),
                    base_offset: log.next_offset,
                },
            )
        } else {
            log.last_batch
        },
        None => log.last_batch,
    }
}

/// A log after a record set was appended.
pub open spec fn spec_append(
    log: LogView,
    partition: ProducePartitionView,
    batches: Seq<RecordBatch>,
    terms: WriteTerms,
    faults: Seq<Fault>,
) -> LogView {
    LogView {
        bytes: log.bytes + spec_stored(partition, batches, faults),
        next_offset: log.next_offset.wrapping_add(appended(batches)),
        open: open_after(log, batches, terms, faults),
        aborted: log.aborted,
        last_batch: last_batch_after(log, batches),
    }
}

/// What a leader makes of a write: the log afterwards, and the answer; none
/// where the record set does not decode.
pub open spec fn spec_write(
    log: LogView,
    partition: ProducePartitionView,
    terms: WriteTerms,
    faults: Seq<Fault>,
) -> (LogView, Option<ProducedPartition>) {
    match partition.batches {
        None => (log, None),
        Some(batches) => {
            let first = first_batch(batches);
            if spec_fenced(terms.epoch, first, faults) {
                (log, Some(refusal(partition.index, PRODUCER_FENCED)))
            } else if spec_out_of_order(log, first, faults) {
                (log, Some(refusal(partition.index, OUT_OF_ORDER_SEQUENCE_NUMBER)))
            } else {
                match spec_duplicate_of(log, first, faults) {
                    Some(known) => (log, Some(acceptance(partition.index, known))),
                    None => (
                        spec_append(log, partition, batches, terms, faults),
                        Some(
                            acceptance(
                                partition.index,
                                if faults.contains(Fault::ProduceWrongBaseOffset) {
                                    log.next_offset.wrapping_add(1)
                                } else {
                                    log.next_offset
                                },
                            ),
                        ),
                    ),
                }
            }
        },
    }
}

fn extend(bytes: &mut Vec<u8>, more: &Vec<u8>)
    ensures
        final(bytes)@ == old(bytes)@ + more@,
{
    let ghost start = bytes@;
    let mut i: usize = 0;
    assert(bytes@ =~= start + more@.take(0));
    while i < more.len()
        invariant
            i <= more@.len(),
            start == old(bytes)@,
            bytes@ == start + more@.take(i as int),
        decreases more@.len() - i,
    {
        bytes.push(more[i]);
        i = i + 1;
        assert(bytes@ =~= start + more@.take(i as int));
    }
    assert(more@.take(i as int) =~= more@);
}

fn append(
    log: &mut PartitionLog,
    partition: &ProducePartition,
    batches: &Vec<RecordBatch>,
    terms: WriteTerms,
    faults: &Vec<Fault>,
)
    ensures
        final(log)@ == spec_append(old(log)@, partition@, batches@, terms, faults@),
{
    let ghost start = log@;
    let base_offset: i64 = log.next_offset;
    let count: i64 = count_appended(batches);
    if batches.len() > 0 {
        let producer_id: i64 = batches[0].producer_id;
        let base_sequence: i32 = batches[0].base_sequence;
        if terms.transactional && producer_id >= 0 && (terms.announced || !injected(
            faults,
            Fault::TxnUnannouncedWriteEscapes,
        )) {
            if !log.open.contains_key(&producer_id) {
                log.open.insert(producer_id, base_offset);
            }
        }
        if producer_id >= 0 && base_sequence >= 0 {
            let steps: i32 = if -0x8000_0000 <= count && count <= 0x7fff_ffff {
                count as i32
            } else {
                0x7fff_ffff
            };
            log.last_batch.insert(
                producer_id,
                LastBatch {
                    base_sequence,
                    next_sequence: base_sequence.wrapping_add(steps),
                    base_offset,
                },
            );
        }
    }
    let rewritten = rewrites(batches, faults);
    match (&partition.rewritten, &partition.records) {
        (Some(bytes), _) if rewritten => {
            extend(&mut log.bytes, bytes);
        },
        (_, Some(bytes)) => {
            extend(&mut log.bytes, bytes);
        },
        _ => {},
    }
    log.next_offset = base_offset.wrapping_add(count);
    assert(log@ =~= spec_append(start, partition@, batches@, terms, faults@));
}

/// Writes to a log, as its leader: fencing first, because a producer that has
/// been replaced is owed no opinion about its sequence numbers; then the
/// sequence; then a retry is recognized and answered with where it landed.
pub fn write(
    log: &mut PartitionLog,
    partition: &ProducePartition,
    terms: WriteTerms,
    faults: &Vec<Fault>,
) -> (r: Option<ProducedPartition>)
    ensures
        (final(log)@, r) == spec_write(old(log)@, partition@, terms, faults@),
{
    let index: i32 = partition.index;
    match &partition.batches {
        None => None,
        Some(batches) => {
            if fenced_at_the_leader(terms.epoch, batches, faults) {
                return Some(refuse(index, PRODUCER_FENCED));
            }
            if out_of_order(log, batches, faults) {
                return Some(refuse(index, OUT_OF_ORDER_SEQUENCE_NUMBER));
            }
            if let Some(known) = duplicate_of(log, batches, faults) {
                return Some(accept(index, known));
            }
            let base_offset: i64 = log.next_offset;
            append(log, partition, batches, terms, faults);
            let answered: i64 = if injected(faults, Fault::ProduceWrongBaseOffset) {
                base_offset.wrapping_add(1)
            } else {
                base_offset
            };
            Some(accept(index, answered))
        },
    }
}

/// The log of a partition, empty where nothing was ever written.
pub open spec fn log_of(state: ClusterView, name: Seq<char>, index: i32) -> LogView {
    if state.logs.contains_key((name, index)) {
        state.logs[(name, index)]
    } else {
        state::empty_log()
    }
}

/// What a write carries from the request round it.
pub open spec fn spec_terms(
    state: ClusterView,
    transactional_id: Option<Seq<char>>,
    name: Seq<char>,
    index: i32,
) -> WriteTerms {
    match transactional_id {
        Some(id) => WriteTerms {
            epoch: if state.txns.contains_key(id) {
                Some(state.txns[id].epoch)
            } else {
                None
            },
            transactional: true,
            announced: state.txns.contains_key(id) && state.txns[id].partitions.contains(
                (name, index),
            ),
        },
        None => WriteTerms { epoch: None, transactional: false, announced: false },
    }
}

fn terms_of(
    state: &ClusterState,
    transactional_id: &Option<String>,
    name: &String,
    index: i32,
) -> (r: WriteTerms)
    ensures
        r == spec_terms(state@, wire::opt_view(*transactional_id), name@, index),
{
    match transactional_id {
        Some(id) => match state.txns.get(id) {
            Some(txn) => WriteTerms {
                epoch: Some(txn.epoch),
                transactional: true,
                announced: txn.partitions.contains(&(name.clone(), index)),
            },
            None => WriteTerms { epoch: None, transactional: true, announced: false },
        },
        None => WriteTerms { epoch: None, transactional: false, announced: false },
    }
}

/// What a broker makes of one partition of a produce. `name` is the topic's,
/// where it could be resolved and is not refused.
pub open spec fn spec_produce_partition(
    state: ClusterView,
    name: Option<Seq<char>>,
    transactional_id: Option<Seq<char>>,
    partition: ProducePartitionView,
    node_id: i32,
    faults: Seq<Fault>,
) -> (ClusterView, Option<ProducedPartition>) {
    match name {
        None => (state, Some(refusal(partition.index, UNKNOWN_TOPIC_ID))),
        Some(name) => if state.placement(name) != node_id && !faults.contains(
            Fault::AnyBrokerAcceptsWrites,
        ) {
            (state, Some(refusal(partition.index, NOT_LEADER_OR_FOLLOWER)))
        } else {
            let terms = spec_terms(state, transactional_id, name, partition.index);
            let (log, answer) = spec_write(
                log_of(state, name, partition.index),
                partition,
                terms,
                faults,
            );
            (
                ClusterView { logs: state.logs.insert((name, partition.index), log), ..state },
                answer,
            )
        },
    }
}

fn produce_partition(
    state: &mut ClusterState,
    name: &Option<String>,
    transactional_id: &Option<String>,
    partition: &ProducePartition,
    node_id: i32,
    faults: &Vec<Fault>,
) -> (r: Option<ProducedPartition>)
    ensures
        (final(state)@, r) == spec_produce_partition(
            old(state)@,
            wire::opt_view(*name),
            wire::opt_view(*transactional_id),
            partition@,
            node_id,
            faults@,
        ),
{
    match name {
        None => Some(refuse(partition.index, UNKNOWN_TOPIC_ID)),
        Some(name) => {
            if state.placement(name.as_str()) != node_id && !injected(
                faults,
                Fault::AnyBrokerAcceptsWrites,
            ) {
                return Some(refuse(partition.index, NOT_LEADER_OR_FOLLOWER));
            }
            let terms = terms_of(state, transactional_id, name, partition.index);
            let log = state.logs.entry((name.clone(), partition.index), PartitionLog::new());
            write(log, partition, terms, faults)
        },
    }
}

/// The partitions of one topic, one after the other, up to the first that
/// does not decode.
pub open spec fn produce_partitions(
    state: ClusterView,
    name: Option<Seq<char>>,
    transactional_id: Option<Seq<char>>,
    partitions: Seq<ProducePartitionView>,
    node_id: i32,
    faults: Seq<Fault>,
) -> (ClusterView, Option<Seq<ProducedPartition>>)
    decreases partitions.len(),
{
    if partitions.len() == 0 {
        (state, Some(Seq::empty()))
    } else {
        let (before, rows) = produce_partitions(
            state,
            name,
            transactional_id,
            partitions.drop_last(),
            node_id,
            faults,
        );
        match rows {
            None => (before, None),
            Some(rows) => {
                let (after, row) = spec_produce_partition(
                    before,
                    name,
                    transactional_id,
                    partitions.last(),
                    node_id,
                    faults,
                );
                match row {
                    Some(row) => (after, Some(rows.push(row))),
                    None => (after, None),
                }
            },
        }
    }
}

/// The name under which a produce finds a topic.
pub open spec fn produced_name(state: ClusterView, topic: ProduceTopicView, faults: Seq<Fault>)
    -> Option<Seq<char>> {
    if topic.name.len() == 0 && faults.contains(Fault::ProduceTopicIdUnknown) {
        None
    } else {
        state.resolve(topic.name, topic.topic_id)
    }
}

/// The topics of a produce, one after the other.
pub open spec fn produce_topics(
    state: ClusterView,
    transactional_id: Option<Seq<char>>,
    topics: Seq<ProduceTopicView>,
    node_id: i32,
    faults: Seq<Fault>,
) -> (ClusterView, Option<Seq<ProducedTopicView>>)
    decreases topics.len(),
{
    if topics.len() == 0 {
        (state, Some(Seq::empty()))
    } else {
        let (before, rows) = produce_topics(
            state,
            transactional_id,
            topics.drop_last(),
            node_id,
            faults,
        );
        match rows {
            None => (before, None),
            Some(rows) => {
                let topic = topics.last();
                let (after, partitions) = produce_partitions(
                    before,
                    produced_name(before, topic, faults),
                    transactional_id,
                    topic.partitions,
                    node_id,
                    faults,
                );
                match partitions {
                    Some(partitions) => (
                        after,
                        Some(
                            rows.push(
                                ProducedTopicView {
                                    name: topic.name,
                                    topic_id: topic.topic_id,
                                    partitions,
                                },
                            ),
                        ),
                    ),
                    None => (after, None),
                }
            },
        }
    }
}

/// What Produce does and answers; no answer where a record set does not
/// decode.
pub open spec fn spec_produce(
    state: ClusterView,
    ask: ProduceAskView,
    node_id: i32,
    faults: Seq<Fault>,
) -> (ClusterView, Option<ProduceReplyView>) {
    let (after, responses) = produce_topics(
        state,
        ask.transactional_id,
        ask.topics,
        node_id,
        faults,
    );
    match responses {
        Some(responses) => (after, Some(ProduceReplyView { responses })),
        None => (after, None),
    }
}

fn produce_topic(
    state: &mut ClusterState,
    transactional_id: &Option<String>,
    topic: &ProduceTopic,
    node_id: i32,
    faults: &Vec<Fault>,
) -> (r: Option<Vec<ProducedPartition>>)
    ensures
        (
            final(state)@,
            match r {
                Some(rows) => Some(rows@),
                None => None,
            },
        ) == produce_partitions(
            old(state)@,
            produced_name(old(state)@, topic@, faults@),
            wire::opt_view(*transactional_id),
            topic@.partitions,
            node_id,
            faults@,
        ),
{
    let name: Option<String> = if topic.name.as_str().unicode_len() == 0 && injected(
        faults,
        Fault::ProduceTopicIdUnknown,
    ) {
        None
    } else {
        state.resolve_topic(&topic.name, &topic.topic_id)
    };
    let ghost start = state@;
    let ghost all = topic@.partitions;
    let ghost found = wire::opt_view(name);
    let ghost id = wire::opt_view(*transactional_id);
    let mut rows: Vec<ProducedPartition> = Vec::new();
    let mut i: usize = 0;
    while i < topic.partitions.len()
        invariant
            i <= topic.partitions@.len(),
            start == old(state)@,
            all == topic@.partitions,
            found == wire::opt_view(name),
            found == produced_name(start, topic@, faults@),
            id == wire::opt_view(*transactional_id),
            (state@, Some(rows@)) == produce_partitions(
                start,
                found,
                id,
                all.take(i as int),
                node_id,
                faults@,
            ),
        decreases topic.partitions@.len() - i,
    {
        assert(all.take(i + 1).drop_last() =~= all.take(i as int));
        assert(all[i as int] == topic.partitions@[i as int]@);
        match produce_partition(
            state,
            &name,
            transactional_id,
            &topic.partitions[i],
            node_id,
            faults,
        ) {
            Some(row) => {
                rows.push(row);
            },
            None => {
                proof {
                    lemma_produce_stays_failed(
                        start,
                        found,
                        id,
                        all,
                        node_id,
                        faults@,
                        i + 1,
                    );
                }
                return None;
            },
        }
        i = i + 1;
    }
    assert(all.take(i as int) =~= all);
    Some(rows)
}

proof fn lemma_produce_stays_failed(
    state: ClusterView,
    name: Option<Seq<char>>,
    transactional_id: Option<Seq<char>>,
    partitions: Seq<ProducePartitionView>,
    node_id: i32,
    faults: Seq<Fault>,
    i: int,
)
    requires
        0 <= i <= partitions.len(),
        produce_partitions(state, name, transactional_id, partitions.take(i), node_id, faults).1
            is None,
    ensures
        produce_partitions(state, name, transactional_id, partitions, node_id, faults)
            == produce_partitions(
            state,
            name,
            transactional_id,
            partitions.take(i),
            node_id,
            faults,
        ),
    decreases partitions.len() - i,
{
    if i < partitions.len() {
        assert(partitions.take(i + 1).drop_last() =~= partitions.take(i));
        lemma_produce_stays_failed(
            state,
            name,
            transactional_id,
            partitions,
            node_id,
            faults,
            i + 1,
        );
    } else {
        assert(partitions.take(i) =~= partitions);
    }
}

proof fn lemma_topics_stay_failed(
    state: ClusterView,
    transactional_id: Option<Seq<char>>,
    topics: Seq<ProduceTopicView>,
    node_id: i32,
    faults: Seq<Fault>,
    i: int,
)
    requires
        0 <= i <= topics.len(),
        produce_topics(state, transactional_id, topics.take(i), node_id, faults).1 is None,
    ensures
        produce_topics(state, transactional_id, topics, node_id, faults) == produce_topics(
            state,
            transactional_id,
            topics.take(i),
            node_id,
            faults,
        ),
    decreases topics.len() - i,
{
    if i < topics.len() {
        assert(topics.take(i + 1).drop_last() =~= topics.take(i));
        lemma_topics_stay_failed(state, transactional_id, topics, node_id, faults, i + 1);
    } else {
        assert(topics.take(i) =~= topics);
    }
}

/// Answers Produce, as one broker of the cluster. There is no answer where a
/// record set does not decode; what was written before it stays.
pub fn produce(state: &mut ClusterState, ask: &ProduceAsk, node_id: i32, faults: &Vec<Fault>) -> (r:
    Option<ProduceReply>)
    ensures
        (
            final(state)@,
            match r {
                Some(reply) => Some(reply@),
                None => None,
            },
        ) == spec_produce(old(state)@, ask@, node_id, faults@),
{
    let ghost start = state@;
    let ghost all = ask@.topics;
    let ghost id = ask@.transactional_id;
    let mut responses: Vec<ProducedTopic> = Vec::new();
    let mut i: usize = 0;
    assert(responses@.map_values(|row: ProducedTopic| row@) =~= Seq::empty());
    while i < ask.topics.len()
        invariant
            i <= ask.topics@.len(),
            start == old(state)@,
            all == ask@.topics,
            id == ask@.transactional_id,
            (state@, Some(responses@.map_values(|row: ProducedTopic| row@))) == produce_topics(
                start,
                id,
                all.take(i as int),
                node_id,
                faults@,
            ),
        decreases ask.topics@.len() - i,
    {
        let ghost before = responses@.map_values(|row: ProducedTopic| row@);
        assert(all.take(i + 1).drop_last() =~= all.take(i as int));
        assert(all[i as int] == ask.topics@[i as int]@);
        let topic = &ask.topics[i];
        match produce_topic(state, &ask.transactional_id, topic, node_id, faults) {
            Some(partitions) => {
                let row = ProducedTopic {
                    name: topic.name.clone(),
                    topic_id: topic.topic_id,
                    partitions,
                };
                let ghost seen = row@;
                responses.push(row);
                assert(responses@.map_values(|row: ProducedTopic| row@) =~= before.push(seen));
            },
            None => {
                proof {
                    lemma_topics_stay_failed(start, id, all, node_id, faults@, i + 1);
                }
                return None;
            },
        }
        i = i + 1;
    }
    assert(all.take(i as int) =~= all);
    Some(ProduceReply { responses })
}

/// Whether one partition of a fetch has records to give.
pub open spec fn has_records(
    state: ClusterView,
    topic: FetchTopicView,
    partition: FetchPartition,
) -> bool {
    match state.resolve(topic.topic, topic.topic_id) {
        Some(name) => state.logs.contains_key((name, partition.partition))
            && partition.fetch_offset < state.logs[(name, partition.partition)].next_offset,
        None => false,
    }
}

/// Whether any partition of a topic has.
pub open spec fn topic_has_records(state: ClusterView, topic: FetchTopicView) -> bool {
    exists|j: int|
        0 <= j < topic.partitions.len() && has_records(
            state,
            topic,
            #[trigger] topic.partitions[j],
        )
}

/// Whether a fetch can be answered at once: it asks for no bytes, or some
/// partition has records past where it asks from.
pub open spec fn spec_satisfiable(state: ClusterView, ask: FetchAskView) -> bool {
    ask.min_bytes <= 0 || exists|i: int|
        0 <= i < ask.topics.len() && topic_has_records(state, #[trigger] ask.topics[i])
}

/// How long a fetch waits before it is answered, in milliseconds.
pub open spec fn spec_fetch_wait(state: ClusterView, ask: FetchAskView, faults: Seq<Fault>)
    -> Option<u64> {
    if !spec_satisfiable(state, ask) && ask.max_wait_ms > 0 && !faults.contains(
        Fault::FetchIgnoresMaxWait,
    ) {
        Some(ask.max_wait_ms as u64)
    } else {
        None
    }
}

fn finds_records(state: &ClusterState, topic: &FetchTopic) -> (r: bool)
    ensures
        r == topic_has_records(state@, topic@),
{
    let name = match state.resolve_topic(&topic.topic, &topic.topic_id) {
        Some(name) => name,
        None => return false,
    };
    let mut j: usize = 0;
    while j < topic.partitions.len()
        invariant
            j <= topic.partitions@.len(),
            state@.resolve(topic@.topic, topic@.topic_id) == Some(name@),
            forall|k: int|
                0 <= k < j ==> !has_records(state@, topic@, #[trigger] topic@.partitions[k]),
        decreases topic.partitions@.len() - j,
    {
        let partition = topic.partitions[j];
        assert(topic@.partitions[j as int] == partition);
        if let Some(log) = state.logs.get(&(name.clone(), partition.partition)) {
            if partition.fetch_offset < log.next_offset {
                assert(has_records(state@, topic@, topic@.partitions[j as int]));
                return true;
            }
        }
        j = j + 1;
    }
    false
}

/// How long a fetch waits before it is answered. The question is asked of the
/// state as it is; the answer is built from the state after the wait, so a
/// record that arrives meanwhile is served.
pub fn fetch_wait(state: &ClusterState, ask: &FetchAsk, faults: &Vec<Fault>) -> (r: Option<u64>)
    ensures
        r == spec_fetch_wait(state@, ask@, faults@),
{
    let mut satisfiable = ask.min_bytes <= 0;
    let mut i: usize = 0;
    while i < ask.topics.len()
        invariant
            i <= ask.topics@.len(),
            satisfiable == (ask.min_bytes <= 0 || exists|k: int|
                0 <= k < i && topic_has_records(state@, #[trigger] ask@.topics[k])),
        decreases ask.topics@.len() - i,
    {
        assert(ask@.topics[i as int] == ask.topics@[i as int]@);
        if finds_records(state, &ask.topics[i]) {
            satisfiable = true;
        }
        i = i + 1;
    }
    if !satisfiable && ask.max_wait_ms > 0 && !injected(faults, Fault::FetchIgnoresMaxWait) {
        Some(ask.max_wait_ms as u64)
    } else {
        None
    }
}

/// The last stable offset that a log reports.
pub open spec fn reported_stable(log: LogView, faults: Seq<Fault>) -> i64 {
    if faults.contains(Fault::TxnStableOffsetIgnoresOpenTxn) {
        log.next_offset
    } else {
        log.stable_offset()
    }
}

fn stable_offset(log: &PartitionLog, faults: &Vec<Fault>) -> (r: i64)
    ensures
        r == reported_stable(log@, faults@),
{
    if injected(faults, Fault::TxnStableOffsetIgnoresOpenTxn) {
        log.next_offset
    } else {
        log.last_stable_offset()
    }
}

/// Whether a fetch serves stored batches with a byte changed.
pub open spec fn corrupts(api_version: i16, oldest: i16, faults: Seq<Fault>) -> bool {
    faults.contains(Fault::FetchCorruptBatch) || (faults.contains(
        Fault::FetchCorruptOnOldVersions,
    ) && api_version == oldest)
}

/// Bytes with the last bit of the last of them flipped.
pub open spec fn spoiled(bytes: Seq<u8>) -> Seq<u8> {
    if bytes.len() == 0 {
        bytes
    } else {
        bytes.update(bytes.len() - 1, bytes.last() ^ 1)
    }
}

/// What a fetch answers for a partition whose log is known, or is not.
pub open spec fn spec_fetched(
    log: Option<LogView>,
    topic: Seq<char>,
    partition: FetchPartition,
    isolation_level: i8,
    corrupt: bool,
    faults: Seq<Fault>,
) -> FetchedPartitionView {
    match log {
        Some(log) => if partition.fetch_offset > log.next_offset && !faults.contains(
            Fault::FetchPastEndSucceeds,
        ) {
            FetchedPartitionView {
                partition_index: partition.partition,
                error_code: OFFSET_OUT_OF_RANGE,
                log: Some(
                    FetchedLogView {
                        high_watermark: log.next_offset,
                        last_stable_offset: reported_stable(log, faults),
                        log_start_offset: 0,
                        aborted_transactions: None,
                        records: None,
                    },
                ),
            }
        } else {
            FetchedPartitionView {
                partition_index: partition.partition,
                error_code: NONE,
                log: Some(
                    FetchedLogView {
                        high_watermark: log.next_offset,
                        last_stable_offset: reported_stable(log, faults),
                        log_start_offset: 0,
                        aborted_transactions: if isolation_level == READ_COMMITTED {
                            Some(log.aborted)
                        } else {
                            None
                        },
                        records: Some(
                            if corrupt {
                                spoiled(log.bytes)
                            } else {
                                log.bytes
                            },
                        ),
                    },
                ),
            }
        },
        None => FetchedPartitionView {
            partition_index: partition.partition,
            error_code: if topic.len() == 0 {
                UNKNOWN_TOPIC_ID
            } else {
                UNKNOWN_TOPIC_OR_PARTITION
            },
            log: None,
        },
    }
}

/// The log that a fetch finds.
pub open spec fn fetched_log(state: ClusterView, topic: FetchTopicView, partition: i32) -> Option<
    LogView,
> {
    match state.resolve(topic.topic, topic.topic_id) {
        Some(name) => if state.logs.contains_key((name, partition)) {
            Some(state.logs[(name, partition)])
        } else {
            None
        },
        None => None,
    }
}

/// The topic id that a fetch echoes.
pub open spec fn echoed_id(id: Seq<u8>, faults: Seq<Fault>) -> Seq<u8> {
    if faults.contains(Fault::FetchWrongTopicId) {
        id.update(0, id[0] ^ 0x80)
    } else {
        id
    }
}

/// What a fetch answers for one topic.
pub open spec fn spec_fetch_topic(
    state: ClusterView,
    topic: FetchTopicView,
    isolation_level: i8,
    corrupt: bool,
    faults: Seq<Fault>,
) -> FetchedTopicView {
    FetchedTopicView {
        topic: topic.topic,
        topic_id: echoed_id(topic.topic_id, faults),
        partitions: topic.partitions.map_values(
            |p: FetchPartition|
                spec_fetched(
                    fetched_log(state, topic, p.partition),
                    topic.topic,
                    p,
                    isolation_level,
                    corrupt,
                    faults,
                ),
        ),
    }
}

/// What Fetch answers. `oldest` is the lowest version that is advertised.
pub open spec fn spec_fetch(
    state: ClusterView,
    ask: FetchAskView,
    api_version: i16,
    oldest: i16,
    faults: Seq<Fault>,
) -> FetchReplyView {
    FetchReplyView {
        error_code: NONE,
        session_id: 0,
        responses: ask.topics.map_values(
            |t: FetchTopicView|
                spec_fetch_topic(
                    state,
                    t,
                    ask.isolation_level,
                    corrupts(api_version, oldest, faults),
                    faults,
                ),
        ),
    }
}

fn spoil(bytes: &Vec<u8>) -> (r: Vec<u8>)
    ensures
        r@ == spoiled(bytes@),
{
    let mut out = copy_bytes(bytes);
    if out.len() > 0 {
        let last: usize = out.len() - 1;
        let flipped: u8 = out[last] ^ 1;
        out.set(last, flipped);
    }
    out
}

fn copy_pairs(pairs: &Vec<(i64, i64)>) -> (r: Vec<(i64, i64)>)
    ensures
        r@ == pairs@,
{
    let mut copy: Vec<(i64, i64)> = Vec::new();
    let mut i: usize = 0;
    while i < pairs.len()
        invariant
            i <= pairs@.len(),
            copy@ == pairs@.take(i as int),
        decreases pairs@.len() - i,
    {
        copy.push(pairs[i]);
        i = i + 1;
        assert(copy@ =~= pairs@.take(i as int));
    }
    assert(pairs@.take(i as int) =~= pairs@);
    copy
}

fn fetch_partition(
    log: Option<&PartitionLog>,
    topic: &String,
    partition: FetchPartition,
    isolation_level: i8,
    corrupt: bool,
    faults: &Vec<Fault>,
) -> (r: FetchedPartition)
    ensures
        r@ == spec_fetched(
            match log {
                Some(log) => Some(log@),
                None => None,
            },
            topic@,
            partition,
            isolation_level,
            corrupt,
            faults@,
        ),
{
    match log {
        Some(log) => {
            if partition.fetch_offset > log.next_offset && !injected(
                faults,
                Fault::FetchPastEndSucceeds,
            ) {
                return FetchedPartition {
                    partition_index: partition.partition,
                    error_code: OFFSET_OUT_OF_RANGE,
                    log: Some(
                        FetchedLog {
                            high_watermark: log.next_offset,
                            last_stable_offset: stable_offset(log, faults),
                            log_start_offset: 0,
                            aborted_transactions: None,
                            records: None,
                        },
                    ),
                };
            }
            let records = if corrupt {
                spoil(&log.bytes)
            } else {
                copy_bytes(&log.bytes)
            };
            let aborted_transactions = if isolation_level == READ_COMMITTED {
                Some(copy_pairs(&log.aborted))
            } else {
                None
            };
            FetchedPartition {
                partition_index: partition.partition,
                error_code: NONE,
                log: Some(
                    FetchedLog {
                        high_watermark: log.next_offset,
                        last_stable_offset: stable_offset(log, faults),
                        log_start_offset: 0,
                        aborted_transactions,
                        records: Some(records),
                    },
                ),
            }
        },
        None => FetchedPartition {
            partition_index: partition.partition,
            error_code: if topic.as_str().unicode_len() == 0 {
                UNKNOWN_TOPIC_ID
            } else {
                UNKNOWN_TOPIC_OR_PARTITION
            },
            log: None,
        },
    }
}

fn echo_id(id: &TopicId, faults: &Vec<Fault>) -> (r: TopicId)
    ensures
        r@ == echoed_id(id@, faults@),
{
    if !injected(faults, Fault::FetchWrongTopicId) {
        return *id;
    }
    let echoed: TopicId = [
        id[0] ^ 0x80,
        id[1],
        id[2],
        id[3],
        id[4],
        id[5],
        id[6],
        id[7],
        id[8],
        id[9],
        id[10],
        id[11],
        id[12],
        id[13],
        id[14],
        id[15],
    ];
    assert(echoed@ =~= id@.update(0, id@[0] ^ 0x80));
    echoed
}

fn fetch_topic(
    state: &ClusterState,
    topic: &FetchTopic,
    isolation_level: i8,
    corrupt: bool,
    faults: &Vec<Fault>,
) -> (r: FetchedTopic)
    ensures
        r@ == spec_fetch_topic(state@, topic@, isolation_level, corrupt, faults@),
{
    let name = state.resolve_topic(&topic.topic, &topic.topic_id);
    let mut partitions: Vec<FetchedPartition> = Vec::new();
    let mut i: usize = 0;
    while i < topic.partitions.len()
        invariant
            i <= topic.partitions@.len(),
            wire::opt_view(name) == state@.resolve(topic@.topic, topic@.topic_id),
            partitions@.len() == i,
            forall|j: int|
                0 <= j < i ==> (#[trigger] partitions@[j])@ == spec_fetched(
                    fetched_log(state@, topic@, topic@.partitions[j].partition),
                    topic@.topic,
                    topic@.partitions[j],
                    isolation_level,
                    corrupt,
                    faults@,
                ),
        decreases topic.partitions@.len() - i,
    {
        let partition = topic.partitions[i];
        let log = match &name {
            Some(name) => state.logs.get(&(name.clone(), partition.partition)),
            None => None,
        };
        assert((match log {
            Some(log) => Some(log@),
            None => None,
        }) == fetched_log(state@, topic@, partition.partition));
        partitions.push(
            fetch_partition(log, &topic.topic, partition, isolation_level, corrupt, faults),
        );
        i = i + 1;
    }
    let r = FetchedTopic {
        topic: topic.topic.clone(),
        topic_id: echo_id(&topic.topic_id, faults),
        partitions,
    };
    assert(r@.partitions =~= spec_fetch_topic(
        state@,
        topic@,
        isolation_level,
        corrupt,
        faults@,
    ).partitions);
    r
}

/// Answers Fetch. Aborted records are returned like any others, with a list
/// of what to disown.
pub fn fetch(
    state: &ClusterState,
    ask: &FetchAsk,
    api_version: i16,
    oldest: i16,
    faults: &Vec<Fault>,
) -> (r: FetchReply)
    ensures
        r@ == spec_fetch(state@, ask@, api_version, oldest, faults@),
{
    let corrupt = injected(faults, Fault::FetchCorruptBatch) || (injected(
        faults,
        Fault::FetchCorruptOnOldVersions,
    ) && api_version == oldest);
    let mut responses: Vec<FetchedTopic> = Vec::new();
    let mut i: usize = 0;
    while i < ask.topics.len()
        invariant
            i <= ask.topics@.len(),
            responses@.len() == i,
            forall|j: int|
                0 <= j < i ==> (#[trigger] responses@[j])@ == spec_fetch_topic(
                    state@,
                    ask@.topics[j],
                    ask.isolation_level,
                    corrupt,
                    faults@,
                ),
        decreases ask.topics@.len() - i,
    {
        assert(ask@.topics[i as int] == ask.topics@[i as int]@);
        responses.push(fetch_topic(state, &ask.topics[i], ask.isolation_level, corrupt, faults));
        i = i + 1;
    }
    let r = FetchReply { error_code: NONE, session_id: 0, responses };
    assert(r@.responses =~= spec_fetch(state@, ask@, api_version, oldest, faults@).responses);
    r
}

/// The first record at or after a time, from the `j`th on.
pub open spec fn first_at(records: Seq<Record>, base: i64, wanted: i64, j: int) -> Option<int>
    decreases records.len() - j,
{
    if !(0 <= j < records.len()) {
        None
    } else if base.wrapping_add(records[j].timestamp_delta) >= wanted {
        Some(j)
    } else {
        first_at(records, base, wanted, j + 1)
    }
}

/// The time and offset of the first record at or after a time, from the `i`th
/// batch on, which begins at an offset. Offsets are counted, not read off the
/// batches: those are stored as they were produced. A compressed batch is
/// opaque and only its span is counted.
pub open spec fn search_from(
    batches: Seq<RecordBatch>,
    wanted: i64,
    i: int,
    offset: i64,
) -> (i64, i64)
    decreases batches.len() - i,
{
    if !(0 <= i < batches.len()) {
        (NO_TIME, NO_OFFSET)
    } else {
        match batches[i].records {
            Records::Plain(records) => match first_at(
                records@,
                batches[i].base_timestamp,
                wanted,
                0,
            ) {
                Some(j) => (
                    batches[i].base_timestamp.wrapping_add(records@[j].timestamp_delta),
                    offset.wrapping_add(j as i64),
                ),
                None => search_from(
                    batches,
                    wanted,
                    i + 1,
                    offset.wrapping_add(records@.len() as i64),
                ),
            },
            Records::Compressed { .. } => search_from(
                batches,
                wanted,
                i + 1,
                offset.wrapping_add((batches[i].last_offset_delta + 1) as i64),
            ),
        }
    }
}

/// The answer to a timestamp lookup in what a log holds.
pub open spec fn spec_timestamp_search(stored: Option<Seq<RecordBatch>>, wanted: i64) -> (i64, i64) {
    match stored {
        Some(batches) => search_from(batches, wanted, 0, 0),
        None => (NO_TIME, NO_OFFSET),
    }
}

fn first_record_at(records: &Vec<Record>, base: i64, wanted: i64) -> (r: Option<usize>)
    ensures
        match r {
            Some(j) => j < records@.len() && first_at(records@, base, wanted, 0) == Some(j as int),
            None => first_at(records@, base, wanted, 0) is None,
        },
{
    let mut j: usize = 0;
    while j < records.len()
        invariant
            j <= records@.len(),
            first_at(records@, base, wanted, 0) == first_at(records@, base, wanted, j as int),
        decreases records@.len() - j,
    {
        if base.wrapping_add(records[j].timestamp_delta) >= wanted {
            return Some(j);
        }
        j = j + 1;
    }
    None
}

/// The first offset whose record's time is at or after `wanted`, with that
/// time; a pair of -1 where every record is earlier or the log does not
/// decode.
pub fn timestamp_search(stored: &Option<Vec<RecordBatch>>, wanted: i64) -> (r: (i64, i64))
    ensures
        r == spec_timestamp_search(
            match *stored {
                Some(batches) => Some(batches@),
                None => None,
            },
            wanted,
        ),
{
    match stored {
        None => (NO_TIME, NO_OFFSET),
        Some(batches) => {
            let mut offset: i64 = 0;
            let mut i: usize = 0;
            while i < batches.len()
                invariant
                    i <= batches@.len(),
                    *stored == Some(*batches),
                    search_from(batches@, wanted, 0, 0) == search_from(
                        batches@,
                        wanted,
                        i as int,
                        offset,
                    ),
                decreases batches@.len() - i,
            {
                let batch = &batches[i];
                match &batch.records {
                    Records::Plain(records) => {
                        match first_record_at(records, batch.base_timestamp, wanted) {
                            Some(j) => {
                                return (
                                    batch.base_timestamp.wrapping_add(records[j].timestamp_delta),
                                    offset.wrapping_add(j as i64),
                                );
                            },
                            None => {
                                offset = offset.wrapping_add(records.len() as i64);
                            },
                        }
                    },
                    Records::Compressed { .. } => {
                        offset = offset.wrapping_add(batch.last_offset_delta as i64 + 1);
                    },
                }
                i = i + 1;
            }
            (NO_TIME, NO_OFFSET)
        },
    }
}

/// The time and offset that a ListOffsets partition is answered.
pub open spec fn listed_offset(
    log: Option<LogView>,
    partition: ListPartitionView,
    faults: Seq<Fault>,
) -> (i64, i64) {
    let end = match log {
        Some(log) => log.next_offset,
        None => 0,
    };
    if partition.timestamp == EARLIEST_TIMESTAMP {
        (
            NO_TIME,
            if faults.contains(Fault::ListOffsetsWrongEarliest) {
                if end > 1 {
                    end
                } else {
                    1
                }
            } else {
                0
            },
        )
    } else if partition.timestamp == LATEST_TIMESTAMP || faults.contains(
        Fault::ListOffsetsTimestampReturnsLogEnd,
    ) {
        (NO_TIME, end)
    } else if log is Some {
        spec_timestamp_search(partition.stored, partition.timestamp)
    } else {
        (NO_TIME, NO_OFFSET)
    }
}

/// What ListOffsets answers for one partition.
pub open spec fn spec_listed(
    state: ClusterView,
    name: Seq<char>,
    partition: ListPartitionView,
    faults: Seq<Fault>,
) -> ListedPartition {
    let key = (name, partition.partition_index);
    let log = if state.logs.contains_key(key) {
        Some(state.logs[key])
    } else {
        None
    };
    let (timestamp, offset) = listed_offset(log, partition, faults);
    ListedPartition {
        partition_index: partition.partition_index,
        error_code: NONE,
        timestamp,
        offset,
        leader_epoch: NO_LEADER_EPOCH,
    }
}

/// What ListOffsets answers for one topic.
pub open spec fn spec_list_topic(state: ClusterView, topic: ListTopicView, faults: Seq<Fault>)
    -> ListedTopicView {
    ListedTopicView {
        name: topic.name,
        partitions: topic.partitions.map_values(
            |p: ListPartitionView| spec_listed(state, topic.name, p, faults),
        ),
    }
}

/// What ListOffsets answers.
pub open spec fn spec_list_offsets(
    state: ClusterView,
    ask: ListOffsetsAskView,
    faults: Seq<Fault>,
) -> ListOffsetsReplyView {
    ListOffsetsReplyView {
        topics: ask.topics.map_values(|t: ListTopicView| spec_list_topic(state, t, faults)),
    }
}

fn list_partition(
    state: &ClusterState,
    name: &String,
    partition: &ListPartition,
    faults: &Vec<Fault>,
) -> (r: ListedPartition)
    ensures
        r == spec_listed(state@, name@, partition@, faults@),
{
    let log = state.logs.get(&(name.clone(), partition.partition_index));
    let end: i64 = match log {
        Some(log) => log.next_offset,
        None => 0,
    };
    let (timestamp, offset): (i64, i64) = if partition.timestamp == EARLIEST_TIMESTAMP {
        let start: i64 = if injected(faults, Fault::ListOffsetsWrongEarliest) {
            if end > 1 {
                end
            } else {
                1
            }
        } else {
            0
        };
        (NO_TIME, start)
    } else if partition.timestamp == LATEST_TIMESTAMP || injected(
        faults,
        Fault::ListOffsetsTimestampReturnsLogEnd,
    ) {
        (NO_TIME, end)
    } else if log.is_some() {
        timestamp_search(&partition.stored, partition.timestamp)
    } else {
        (NO_TIME, NO_OFFSET)
    };
    ListedPartition {
        partition_index: partition.partition_index,
        error_code: NONE,
        timestamp,
        offset,
        leader_epoch: NO_LEADER_EPOCH,
    }
}

fn list_topic(state: &ClusterState, topic: &ListTopic, faults: &Vec<Fault>) -> (r: ListedTopic)
    ensures
        r@ == spec_list_topic(state@, topic@, faults@),
{
    let mut partitions: Vec<ListedPartition> = Vec::new();
    let mut i: usize = 0;
    while i < topic.partitions.len()
        invariant
            i <= topic.partitions@.len(),
            partitions@.len() == i,
            forall|j: int|
                0 <= j < i ==> (#[trigger] partitions@[j]) == spec_listed(
                    state@,
                    topic@.name,
                    topic@.partitions[j],
                    faults@,
                ),
        decreases topic.partitions@.len() - i,
    {
        assert(topic@.partitions[i as int] == topic.partitions@[i as int]@);
        partitions.push(list_partition(state, &topic.name, &topic.partitions[i], faults));
        i = i + 1;
    }
    let r = ListedTopic { name: topic.name.clone(), partitions };
    assert(r@.partitions =~= spec_list_topic(state@, topic@, faults@).partitions);
    r
}

/// Answers ListOffsets: the log start, the log end, or the first record at or
/// after a time.
pub fn list_offsets(state: &ClusterState, ask: &ListOffsetsAsk, faults: &Vec<Fault>) -> (r:
    ListOffsetsReply)
    ensures
        r@ == spec_list_offsets(state@, ask@, faults@),
{
    let mut topics: Vec<ListedTopic> = Vec::new();
    let mut i: usize = 0;
    while i < ask.topics.len()
        invariant
            i <= ask.topics@.len(),
            topics@.len() == i,
            forall|j: int|
                0 <= j < i ==> (#[trigger] topics@[j])@ == spec_list_topic(
                    state@,
                    ask@.topics[j],
                    faults@,
                ),
        decreases ask.topics@.len() - i,
    {
        assert(ask@.topics[i as int] == ask.topics@[i as int]@);
        topics.push(list_topic(state, &ask.topics[i], faults));
        i = i + 1;
    }
    let r = ListOffsetsReply { topics };
    assert(r@.topics =~= spec_list_offsets(state@, ask@, faults@).topics);
    r
}

} // verus!

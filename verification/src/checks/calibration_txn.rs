//! What the checks make of the producers and transactions that the reference
//! subject knows, of its brokers going away, and of the shape of its frames.

use vstd::prelude::*;
use vstd::string::*;

use crate::checks::batch;
use crate::checks::calibration_state;
use crate::checks::server;
use crate::checks::server::Reading;
use crate::checks::server_cluster;
use crate::checks::server_txn;
use crate::checks::tape::BatchStamp;
use crate::checks::txn_flows;
use crate::subject::log;
use crate::subject::log::WriteTerms;
use crate::subject::offsets;
use crate::subject::replies::ProducedPartition;
use crate::subject::requests::{
    CommitPartitionView, EndTxnAskView, InitProducerIdAskView, ProducePartitionView,
    TxnOffsetTopicView, TxnOffsetsAskView,
};
use crate::subject::serve;
use crate::subject::serve::Asked;
use crate::subject::state;
use crate::subject::state::{ClusterView, LastBatch, LogView};
use crate::subject::topics;
use crate::subject::txn;
use crate::subject::Fault;
use crate::wire;
use crate::wire::{FetchedRow, ProducedRow, RecordBatch, Schema};
use crate::VerdictView;

verus! {

/// Two claims of one transactional id, as `txn/init-bumps-the-epoch` sees
/// what they are given.
pub proof fn law_reclaim_is_calibrated(state: ClusterView, id: Seq<char>, reuses: bool)
    requires
        txn::UNCLAIMED_EPOCH <= txn::txn_of(state, id).epoch < i16::MAX - 1,
    ensures
        ({
            let faults = calibration_state::only_if(Fault::TxnInitReusesEpoch, reuses);
            let ask = InitProducerIdAskView { transactional_id: Some(id) };
            let (after, first) = txn::spec_init_producer_id(state, ask, faults);
            let second = txn::spec_init_producer_id(after, ask, faults).1;
            let verdict = server_txn::spec_judge_reclaim(
                id,
                first.producer_id,
                first.producer_epoch,
                second.producer_id,
                second.producer_epoch,
            );
            &&& !reuses ==> verdict == VerdictView::Pass
            &&& reuses ==> verdict is Fail
        }),
{
    let fault = Fault::TxnInitReusesEpoch;
    calibration_state::lemma_only_if(fault, reuses, fault);
}

/// Whether a row is what a reader makes of a write's answer.
pub open spec fn shows_written(row: ProducedRow, answer: Option<ProducedPartition>) -> bool {
    &&& answer is Some
    &&& row.error.code == answer->Some_0.error_code
    &&& row.base_offset == answer->Some_0.base_offset
}

/// A transactional write to a partition that was not announced, and the abort
/// after it, as `txn/unannounced-write-stays-in-the-transaction` sees what a
/// committed reader is told of a log with no other transaction.
pub proof fn law_unannounced_write_is_calibrated(
    log: LogView,
    partition: ProducePartitionView,
    batch: RecordBatch,
    stamp: BatchStamp,
    epoch: i16,
    row: FetchedRow,
    context: Seq<char>,
    budget: u64,
    escapes: bool,
)
    requires
        log.open == Map::<i64, i64>::empty(),
        log.aborted.len() == 0,
        log.last_batch == Map::<i64, LastBatch>::empty(),
        0 <= log.next_offset < i64::MAX - 10,
        batch::is_probe_batch(batch, stamp),
        stamp.producer_id >= 0,
        stamp.producer_epoch == epoch,
        partition.batches == Some(seq![batch]),
        ({
            let faults = calibration_state::only_if(Fault::TxnUnannouncedWriteEscapes, escapes);
            let terms = WriteTerms { epoch: Some(epoch), transactional: true, announced: false };
            let written = log::spec_write(log, partition, terms, faults).0;
            calibration_state::shows_log(
                row,
                txn::ended_log(written, stamp.producer_id, false, faults),
            )
        }),
    ensures
        txn_flows::spec_judge_abort(
            Some(row),
            log.next_offset,
            stamp.producer_id,
            context,
            budget,
        ) is None <==> !escapes,
{
    let fault = Fault::TxnUnannouncedWriteEscapes;
    let faults = calibration_state::only_if(fault, escapes);
    calibration_state::lemma_only_if(fault, escapes, fault);
    calibration_state::lemma_only_if(fault, escapes, Fault::ProduceAcceptsFencedEpoch);
    calibration_state::lemma_only_if(fault, escapes, Fault::TxnAbortListOmitted);
    calibration_state::lemma_only_if(fault, escapes, Fault::TxnCommitMarksAborted);
    let pid = stamp.producer_id;
    let batches = seq![batch];
    assert(batches.drop_last() =~= Seq::empty());
    reveal_with_fuel(log::appended, 2);
    assert(log::appended(batches) == 2);
    let terms = WriteTerms { epoch: Some(epoch), transactional: true, announced: false };
    let written = log::spec_write(log, partition, terms, faults).0;
    let ended = txn::ended_log(written, pid, false, faults);
    assert(ended.open =~= Map::<i64, i64>::empty());
    assert(ended.stable_offset() == ended.next_offset);
    let named = row.aborted->Some_0@;
    if escapes {
        assert(named =~= Seq::empty());
    } else {
        assert(ended.aborted.len() == 1);
        assert(named[0] == pid);
    }
}

/// Offsets that were committed inside a transaction, as
/// `txn/offsets-wait-for-the-commit` sees them before its end and after.
pub proof fn law_txn_offsets_are_calibrated(
    state: ClusterView,
    ask: TxnOffsetsAskView,
    name: Seq<char>,
    partition: CommitPartitionView,
    publishes: bool,
)
    requires
        state.txns.contains_key(ask.transactional_id),
        state.txns[ask.transactional_id].epoch == ask.producer_epoch,
        ask.topics == seq![TxnOffsetTopicView { name, partitions: seq![partition] }],
        partition.committed_offset == server_txn::TXN_COMMITTED,
        !state.committed.contains_key((ask.group_id, name, partition.partition_index)),
    ensures
        ({
            let faults = calibration_state::only_if(Fault::TxnOffsetsPublishImmediately, publishes);
            let held = txn::spec_txn_offsets(state, ask, faults).0;
            let end = EndTxnAskView {
                transactional_id: ask.transactional_id,
                producer_epoch: ask.producer_epoch,
                committed: true,
            };
            let after = txn::spec_end_txn(held, end, faults).0;
            let early = offsets::spec_lookup(
                held,
                ask.group_id,
                name,
                partition.partition_index,
                faults,
            ).offset;
            let late = offsets::spec_lookup(
                after,
                ask.group_id,
                name,
                partition.partition_index,
                faults,
            ).offset;
            &&& early == server_txn::TXN_COMMITTED <==> publishes
            &&& !publishes ==> late == server_txn::TXN_COMMITTED
        }),
{
    let fault = Fault::TxnOffsetsPublishImmediately;
    let faults = calibration_state::only_if(fault, publishes);
    calibration_state::lemma_only_if(fault, publishes, fault);
    calibration_state::lemma_only_if(fault, publishes, Fault::OffsetFetchLosesCommit);
    calibration_state::lemma_only_if(fault, publishes, Fault::OffsetFetchUnsetIsZero);
    calibration_state::lemma_only_if(fault, publishes, Fault::TxnIgnoresProducerEpoch);
    let topics = ask.topics;
    let one = seq![partition];
    assert(topics.drop_last() =~= Seq::empty());
    assert(one.drop_last() =~= Seq::empty());
    assert(topics.last() == topics[0]);
    assert(one.last() == one[0]);
    reveal_with_fuel(txn::hold_topics, 2);
    reveal_with_fuel(txn::hold_partitions, 2);
}

/// A stamped batch that is sent twice, as
/// `produce/idempotent-retry-is-deduped` sees by how much the log grew.
pub proof fn law_retry_is_calibrated(
    log: LogView,
    partition: ProducePartitionView,
    batch: RecordBatch,
    stamp: BatchStamp,
    terms: WriteTerms,
    first: ProducedRow,
    retry: ProducedRow,
    appends: bool,
)
    requires
        0 <= log.next_offset < i64::MAX - 10,
        !log.last_batch.contains_key(stamp.producer_id),
        batch::is_probe_batch(batch, stamp),
        stamp.producer_id >= 0,
        stamp.base_sequence == 0,
        partition.batches == Some(seq![batch]),
        terms.epoch is None,
    ensures
        ({
            let faults = calibration_state::only_if(
                Fault::ProduceAppendsIdempotentRetries,
                appends,
            );
            let once = log::spec_write(log, partition, terms, faults).0;
            let twice = log::spec_write(once, partition, terms, faults).0;
            let verdict = server_txn::spec_judge_retry(
                stamp.producer_id,
                first,
                retry,
                twice.next_offset.wrapping_sub(log.next_offset),
            );
            &&& !appends ==> verdict == VerdictView::Pass
            &&& appends ==> verdict is Fail
        }),
{
    let fault = Fault::ProduceAppendsIdempotentRetries;
    calibration_state::lemma_only_if(fault, appends, fault);
    calibration_state::lemma_only_if(fault, appends, Fault::ProduceAcceptsSequenceGaps);
    let batches = seq![batch];
    assert(batches.drop_last() =~= Seq::empty());
    reveal_with_fuel(log::appended, 2);
    assert(log::appended(batches) == 2);
    assert(batches[0] == batch);
}

/// A stamped batch that skips ahead of the one before it, as
/// `produce/sequence-gap-is-refused` sees what it is told.
pub proof fn law_gap_is_calibrated(
    log: LogView,
    first: ProducePartitionView,
    second: ProducePartitionView,
    before: RecordBatch,
    ahead: RecordBatch,
    stamp: BatchStamp,
    terms: WriteTerms,
    row: ProducedRow,
    accepts: bool,
)
    requires
        !log.last_batch.contains_key(stamp.producer_id),
        batch::is_probe_batch(before, stamp),
        batch::is_probe_batch(
            ahead,
            BatchStamp { base_sequence: server_txn::GAP_SEQUENCE, ..stamp },
        ),
        stamp.producer_id >= 0,
        stamp.base_sequence == 0,
        first.batches == Some(seq![before]),
        second.batches == Some(seq![ahead]),
        terms.epoch is None,
        ({
            let faults = calibration_state::only_if(Fault::ProduceAcceptsSequenceGaps, accepts);
            let once = log::spec_write(log, first, terms, faults).0;
            shows_written(row, log::spec_write(once, second, terms, faults).1)
        }),
    ensures
        !accepts ==> server_txn::spec_judge_gap(row) == VerdictView::Pass,
        accepts ==> server_txn::spec_judge_gap(row) is Fail,
{
    let fault = Fault::ProduceAcceptsSequenceGaps;
    calibration_state::lemma_only_if(fault, accepts, fault);
    let batches = seq![before];
    assert(batches.drop_last() =~= Seq::empty());
    reveal_with_fuel(log::appended, 2);
    assert(log::appended(batches) == 2);
    assert(batches[0] == before);
    assert(seq![ahead][0] == ahead);
}

/// A write at a broker that does not lead, as
/// `cluster/writes-go-to-the-leader` sees what it is told.
pub proof fn law_stray_write_is_calibrated(
    state: ClusterView,
    name: Seq<char>,
    partition: ProducePartitionView,
    node_id: i32,
    row: ProducedRow,
    accepts: bool,
)
    requires
        state.placement(name) != node_id,
        !state.logs.contains_key((name, partition.index)),
        partition.batches is Some,
        shows_written(
            row,
            log::spec_produce_partition(
                state,
                Some(name),
                None,
                partition,
                node_id,
                calibration_state::only_if(Fault::AnyBrokerAcceptsWrites, accepts),
            ).1,
        ),
    ensures
        ({
            let verdict = server_cluster::spec_judge_stray_write(
                row,
                node_id,
                name,
                state.placement(name),
            );
            &&& !accepts ==> verdict == VerdictView::Pass
            &&& accepts ==> verdict is Fail
        }),
{
    let fault = Fault::AnyBrokerAcceptsWrites;
    calibration_state::lemma_only_if(fault, accepts, fault);
}

/// A commit at a broker that does not coordinate the group, as
/// `cluster/group-offsets-need-the-coordinator` sees its code: the refusal
/// that the check waits for, unless any broker keeps offsets.
pub proof fn law_stray_commit_is_calibrated(
    state: ClusterView,
    group: Seq<char>,
    topic: crate::subject::requests::CommitTopicView,
    node_id: i32,
    serves: bool,
)
    requires
        state.placement(group) != node_id,
        topic.partitions.len() == 1,
    ensures
        ({
            let faults = calibration_state::only_if(Fault::AnyBrokerServesGroups, serves);
            let elsewhere = offsets::is_elsewhere(state, group, node_id, faults);
            let code = offsets::spec_commit_topic(state, topic, elsewhere).partitions[0].error_code;
            &&& !serves ==> code == wire::NOT_COORDINATOR
            &&& serves ==> code == wire::NONE
        }),
{
    let fault = Fault::AnyBrokerServesGroups;
    calibration_state::lemma_only_if(fault, serves, fault);
}

/// The leader of a topic once the broker that led it is stopped, as
/// `cluster/leadership-moves-when-a-broker-stops` sees it.
pub proof fn law_failover_is_calibrated(
    state: ClusterView,
    name: Seq<char>,
    node_id: i32,
    stays: bool,
)
    requires
        state.down == Set::<i32>::empty(),
        2 <= state.ports.len() < i32::MAX,
    ensures
        ({
            let faults = calibration_state::only_if(
                Fault::LeadershipStaysWithTheStoppedBroker,
                stays,
            );
            let stopped = topics::reported_leader(state, name, node_id, faults);
            let after = state::spec_stop(state, stopped);
            server_cluster::is_another(
                topics::reported_leader(after, name, node_id, faults),
                stopped,
            ) <==> !stays
        }),
{
    let fault = Fault::LeadershipStaysWithTheStoppedBroker;
    let faults = calibration_state::only_if(fault, stays);
    calibration_state::lemma_only_if(fault, stays, fault);
    calibration_state::lemma_only_if(fault, stays, Fault::BrokersDisagreeOnLeader);
    let stopped = topics::reported_leader(state, name, node_id, faults);
    let after = state::spec_stop(state, stopped);
    assert(after.node_ids() == state.node_ids());
    if !stays {
        let ids = state.node_ids();
        let other = if ids[0] == stopped { 1int } else { 0int };
        let up = |id: i32| !after.down.contains(id);
        assert(ids[0] != ids[1]);
        assert(up(ids[other]));
        ids.lemma_filter_contains(up, other);
        assert(after.live().len() > 0);
        crate::subject::laws::law_placed_on_a_live_broker(after, name);
    }
}

/// What a group committed once the broker that coordinated it is stopped, as
/// `cluster/committed-offsets-outlive-the-coordinator` sees it.
pub proof fn law_durable_offset_is_calibrated(
    state: ClusterView,
    group: Seq<char>,
    name: Seq<char>,
    partition: i32,
    dies: bool,
)
    requires
        state.faults == calibration_state::only_if(Fault::OffsetsDieWithTheirCoordinator, dies),
        state.committed.contains_key((group, name, partition)),
        state.committed[(group, name, partition)].offset == server_cluster::DURABLE,
    ensures
        ({
            let stopped = state::spec_placement_over(group, state.node_ids());
            let after = state::spec_stop(state, stopped);
            offsets::spec_lookup(after, group, name, partition, state.faults).offset
                == server_cluster::DURABLE <==> !dies
        }),
{
    let fault = Fault::OffsetsDieWithTheirCoordinator;
    calibration_state::lemma_only_if(fault, dies, fault);
    calibration_state::lemma_only_if(fault, dies, Fault::OffsetFetchLosesCommit);
    calibration_state::lemma_only_if(fault, dies, Fault::OffsetFetchUnsetIsZero);
}

/// The shape of the subject's frames against the one that the exchanges read
/// them in: ApiVersions with the plain header, at the version that was asked
/// for or at 0 where that is not spoken; Metadata with the header of its
/// version; Produce at the version that was asked for; Fetch with nothing
/// after its body. Each fault breaks one of these.
pub proof fn law_shapes_are_calibrated(asked: Asked, schema: Schema, faults: Seq<Fault>)
    requires
        asked.header_version == (if asked.api_version >= serve::METADATA_FLEXIBLE {
            1i16
        } else {
            0i16
        }),
    ensures
        ({
            let framing = serve::spec_api_versions_framing(asked, schema, faults);
            let supported = topics::spec_supported(schema, asked.api_version);
            &&& framing.header_version == 0 <==> !(faults.contains(Fault::FlexibleHeaderOnV3)
                && supported && asked.api_version >= 3)
            &&& supported ==> framing.encode_at == asked.api_version
            &&& !supported ==> (framing.encode_at == 0 <==> !faults.contains(
                Fault::ErrorBodyNotV0,
            ))
        }),
        serve::spec_metadata_framing(asked, faults).header_version == asked.header_version <==> !(
        faults.contains(Fault::MetadataNonFlexibleHeader) && asked.api_version
            >= serve::METADATA_FLEXIBLE),
        serve::spec_produce_framing(asked, faults).encode_at == asked.api_version <==> !(
        faults.contains(Fault::MisshapesOneProduceVersion) && asked.api_version
            == serve::MISSHAPEN_VERSION),
        serve::spec_fetch_framing(asked, faults).trailing_garbage <==> faults.contains(
            Fault::FetchTrailingGarbage,
        ),
{
}

/// What follows the body of a Fetch answer, as every exchange sees it: bytes
/// left over are a violation.
pub proof fn law_fetch_frames_are_calibrated(
    asked: Asked,
    reading: Reading,
    response_header: i16,
    faults: Seq<Fault>,
)
    requires
        reading.echoed == Some(asked.correlation_id),
        reading.header is Ok,
        reading.body is Ok,
        reading.trailing == serve::spec_garbage(
            serve::spec_fetch_framing(asked, faults).trailing_garbage,
        ).len(),
    ensures
        server::spec_judge_reading(
            asked.correlation_id,
            response_header,
            asked.api_version,
            reading,
        ) is Ok <==> !faults.contains(Fault::FetchTrailingGarbage),
{
}

} // verus!

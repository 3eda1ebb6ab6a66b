//! What the checks make of the topics and logs that the reference subject
//! keeps.

use vstd::prelude::*;
use vstd::string::*;

use crate::checks::batch;
use crate::checks::calibration;
use crate::checks::calibration_state;
use crate::checks::flows::Addressing;
use crate::checks::log_flows;
use crate::checks::server_basic;
use crate::checks::server_log;
use crate::checks::tape::BatchStamp;
use crate::subject::log;
use crate::subject::log::WriteTerms;
use crate::subject::replies::{FetchReplyView, FetchedPartitionView};
use crate::subject::requests::{
    FetchAskView, FetchPartition, ListPartitionView, NewTopicView, ProducePartitionView,
    ProduceTopicView,
};
use crate::subject::state::{ClusterView, LogView};
use crate::subject::topics;
use crate::subject::Fault;
use crate::wire;
use crate::wire::{
    CreatedRow, FetchAnswer, FetchedRow, RecordBatch, Records, TopicId, TopicRow,
    EARLIEST_TIMESTAMP, LATEST_TIMESTAMP,
};
use crate::VerdictView;

verus! {

/// A creation with more replicas than there are brokers, as
/// `create-topics/impossible-replication` sees it.
pub proof fn law_impossible_replication_is_calibrated(
    state: ClusterView,
    topic: NewTopicView,
    rows: Seq<CreatedRow>,
    ignores: bool,
)
    requires
        !state.created.contains_key(topic.name),
        topic.replication_factor == server_basic::IMPOSSIBLE_REPLICAS,
        state.ports.len() < server_basic::IMPOSSIBLE_REPLICAS,
        rows.len() == 1,
        rows[0].error.code == topics::creation_code(
            state,
            topic,
            calibration_state::only_if(Fault::CreateTopicsIgnoresReplicationFactor, ignores),
        ),
    ensures
        !ignores ==> server_basic::spec_judge_overreplicated(rows, topic.name)
            == VerdictView::Pass,
        ignores ==> server_basic::spec_judge_overreplicated(rows, topic.name) is Fail,
{
    let fault = Fault::CreateTopicsIgnoresReplicationFactor;
    calibration_state::lemma_only_if(fault, ignores, fault);
    calibration_state::lemma_only_if(fault, ignores, Fault::CreateTopicsDuplicateSucceeds);
}

/// A topic that was deleted, as `delete-topics/removes-the-topic` sees what
/// Metadata says of it.
pub proof fn law_deletion_is_calibrated(
    state: ClusterView,
    name: Seq<char>,
    correlation_id: i32,
    node_id: i32,
    entry: TopicRow,
    keeps: bool,
)
    requires
        state.created.contains_key(name),
        ({
            let faults = calibration_state::only_if(Fault::DeleteTopicsKeepsTheTopic, keeps);
            let after = topics::after_delete(state, name, faults);
            calibration::shows_topic(
                entry,
                topics::spec_topic(after, name, correlation_id, node_id, faults),
            )
        }),
    ensures
        server_basic::is_gone(entry) <==> !keeps,
{
    let fault = Fault::DeleteTopicsKeepsTheTopic;
    calibration_state::lemma_only_if(fault, keeps, fault);
}

/// The last four bytes of an id tell correlation ids apart.
pub proof fn lemma_salts_differ(a: i32, b: i32)
    requires
        a != b,
    ensures
        topics::salt(a) != topics::salt(b),
{
    let m = a as u32;
    let n = b as u32;
    assert(m != n) by (bit_vector)
        requires
            a != b,
            m == a as u32,
            n == b as u32,
    ;
    assert((m >> 24) as u8 != (n >> 24) as u8 || (m >> 16) as u8 != (n >> 16) as u8 || (m >> 8) as u8
        != (n >> 8) as u8 || m as u8 != n as u8) by (bit_vector)
        requires
            m != n,
    ;
    let x = topics::salt(a);
    let y = topics::salt(b);
    if x == y {
        assert(x[0] == y[0] && x[1] == y[1] && x[2] == y[2] && x[3] == y[3]);
    }
}

/// The id of a topic in two answers, as `metadata/topic-id-is-stable` sees
/// it: the same each time, unless each ask has it minted anew.
pub proof fn law_stable_id_is_calibrated(
    state: ClusterView,
    name: Seq<char>,
    one: i32,
    other: i32,
    node_id: i32,
    first: TopicRow,
    second: TopicRow,
    remints: bool,
)
    requires
        one != other,
        state.created.contains_key(name),
        state.created[name].len() == 16,
        ({
            let faults = calibration_state::only_if(Fault::MetadataRemintsTopicId, remints);
            &&& calibration::shows_topic(
                first,
                topics::spec_topic(state, name, one, node_id, faults),
            )
            &&& calibration::shows_topic(
                second,
                topics::spec_topic(state, name, other, node_id, faults),
            )
        }),
    ensures
        first.topic_id@ == second.topic_id@ <==> !remints,
{
    let fault = Fault::MetadataRemintsTopicId;
    calibration_state::lemma_only_if(fault, remints, fault);
    if remints {
        let id = state.created[name];
        lemma_salts_differ(one, other);
        assert(first.topic_id@.skip(12) =~= topics::salt(one));
        assert(second.topic_id@.skip(12) =~= topics::salt(other));
    }
}

/// The first write to a fresh log, as `produce/basic` sees the offset that it
/// was given.
pub proof fn law_first_offset_is_calibrated(
    log: LogView,
    partition: ProducePartitionView,
    batches: Seq<RecordBatch>,
    terms: WriteTerms,
    base_offset: i64,
    wrong: bool,
)
    requires
        log.next_offset == 0,
        log.last_batch == Map::<i64, crate::subject::state::LastBatch>::empty(),
        partition.batches == Some(batches),
        terms.epoch is None,
        ({
            let answer = log::spec_write(
                log,
                partition,
                terms,
                calibration_state::only_if(Fault::ProduceWrongBaseOffset, wrong),
            ).1;
            answer is Some && base_offset == answer->Some_0.base_offset
        }),
    ensures
        !wrong ==> server_log::spec_judge_first_offset(base_offset) == VerdictView::Pass,
        wrong ==> server_log::spec_judge_first_offset(base_offset) is Fail,
{
    let fault = Fault::ProduceWrongBaseOffset;
    calibration_state::lemma_only_if(fault, wrong, fault);
}

/// A write to a topic that is addressed by an id that exists, at its leader:
/// what `produce/topic-id` waits for is the code of a write that is taken.
pub proof fn law_produce_by_id_is_calibrated(
    state: ClusterView,
    topic: ProduceTopicView,
    partition: ProducePartitionView,
    node_id: i32,
    unknown: bool,
)
    requires
        topic.name.len() == 0,
        state.topic_names.contains_key(topic.topic_id),
        state.placement(state.topic_names[topic.topic_id]) == node_id,
        !state.logs.contains_key((state.topic_names[topic.topic_id], partition.index)),
        partition.batches is Some,
    ensures
        ({
            let faults = calibration_state::only_if(Fault::ProduceTopicIdUnknown, unknown);
            let answer = log::spec_produce_partition(
                state,
                log::produced_name(state, topic, faults),
                None,
                partition,
                node_id,
                faults,
            ).1;
            &&& answer is Some
            &&& answer->Some_0.error_code == wire::NONE <==> !unknown
        }),
{
    let fault = Fault::ProduceTopicIdUnknown;
    calibration_state::lemma_only_if(fault, unknown, fault);
}

/// Whether a row is what a reader makes of one partition of a Fetch.
pub open spec fn shows_fetched(row: FetchedRow, reply: FetchedPartitionView) -> bool {
    &&& row.error.code == reply.error_code
    &&& reply.log matches Some(log) ==> {
        &&& row.high_watermark == log.high_watermark
        &&& row.last_stable_offset == log.last_stable_offset
        &&& batch::opt_bytes(row.records) == log.records
    }
}

/// Whether an answer is what a reader makes of a Fetch of one partition.
pub open spec fn shows_fetch(answer: FetchAnswer, reply: FetchReplyView) -> bool {
    &&& answer.error.code == reply.error_code
    &&& answer.topics@.len() == 1
    &&& reply.responses.len() == 1
    &&& answer.topics@[0].topic_id@ == reply.responses[0].topic_id
    &&& answer.topics@[0].partitions@.len() == 1
    &&& reply.responses[0].partitions.len() == 1
    &&& shows_fetched(answer.topics@[0].partitions@[0], reply.responses[0].partitions[0])
}

/// A fetch of what a log holds from its start, addressed by id, as
/// `fetch/topic-id` sees the answer: the log's bytes, under the id that was
/// asked for.
pub proof fn law_fetch_by_id_is_calibrated(
    state: ClusterView,
    ask: FetchAskView,
    api_version: i16,
    oldest: i16,
    topic_id: TopicId,
    answer: FetchAnswer,
    wrong: bool,
)
    requires
        ask.topics.len() == 1,
        ask.topics[0].topic.len() == 0,
        ask.topics[0].topic_id == topic_id@,
        ask.topics[0].partitions == seq![FetchPartition { partition: 0, fetch_offset: 0 }],
        state.topic_names.contains_key(topic_id@),
        state.logs.contains_key((state.topic_names[topic_id@], 0)),
        0 <= state.logs[(state.topic_names[topic_id@], 0)].next_offset,
        shows_fetch(
            answer,
            log::spec_fetch(
                state,
                ask,
                api_version,
                oldest,
                calibration_state::only_if(Fault::FetchWrongTopicId, wrong),
            ),
        ),
    ensures
        !wrong ==> log_flows::spec_read_fetch(answer, Addressing::TopicId, topic_id) == Ok::<
            Seq<u8>,
            Seq<char>,
        >(state.logs[(state.topic_names[topic_id@], 0)].bytes),
        wrong ==> log_flows::spec_read_fetch(answer, Addressing::TopicId, topic_id) is Err,
{
    let fault = Fault::FetchWrongTopicId;
    let faults = calibration_state::only_if(fault, wrong);
    calibration_state::lemma_only_if(fault, wrong, fault);
    calibration_state::lemma_only_if(fault, wrong, Fault::FetchPastEndSucceeds);
    calibration_state::lemma_only_if(fault, wrong, Fault::FetchCorruptBatch);
    calibration_state::lemma_only_if(fault, wrong, Fault::FetchCorruptOnOldVersions);
    if wrong {
        let first = topic_id@[0];
        assert(first ^ 0x80 != first) by (bit_vector);
        assert(log::echoed_id(topic_id@, faults)[0] != topic_id@[0]);
    }
}

/// A fetch far past the end of a log, as `fetch/offset-out-of-range` sees it.
pub proof fn law_out_of_range_is_calibrated(
    log: LogView,
    topic: Seq<char>,
    partition: FetchPartition,
    isolation_level: i8,
    row: FetchedRow,
    succeeds: bool,
)
    requires
        partition.fetch_offset == server_log::BEYOND,
        log.next_offset < server_log::BEYOND,
        shows_fetched(
            row,
            log::spec_fetched(
                Some(log),
                topic,
                partition,
                isolation_level,
                false,
                calibration_state::only_if(Fault::FetchPastEndSucceeds, succeeds),
            ),
        ),
    ensures
        !succeeds ==> server_log::spec_judge_beyond(row) == VerdictView::Pass,
        succeeds ==> server_log::spec_judge_beyond(row) is Fail,
{
    let fault = Fault::FetchPastEndSucceeds;
    calibration_state::lemma_only_if(fault, succeeds, fault);
}

/// What a fetch serves of a log, and at which versions it serves something
/// else: what `fetch/batch-integrity` compares with what was produced. A
/// batch with a byte changed fails that comparison, whatever it decodes to.
pub proof fn law_served_bytes_are_calibrated(
    log: LogView,
    topic: Seq<char>,
    partition: FetchPartition,
    isolation_level: i8,
    api_version: i16,
    oldest: i16,
    faults: Seq<Fault>,
    decoded: Result<Vec<RecordBatch>, String>,
)
    requires
        partition.fetch_offset <= log.next_offset,
        log.bytes.len() > server_log::BEFORE_CRC,
    ensures
        ({
            let corrupt = log::corrupts(api_version, oldest, faults);
            let reply = log::spec_fetched(
                Some(log),
                topic,
                partition,
                isolation_level,
                corrupt,
                faults,
            );
            &&& reply.error_code == wire::NONE
            &&& reply.log is Some
            &&& reply.log->Some_0.records is Some
            &&& !corrupt ==> reply.log->Some_0.records->Some_0 == log.bytes
            &&& corrupt ==> server_log::spec_batch_integrity(
                log.bytes,
                reply.log->Some_0.records->Some_0,
                decoded,
            ) is Fail
            &&& corrupt <==> faults.contains(Fault::FetchCorruptBatch) || (faults.contains(
                Fault::FetchCorruptOnOldVersions,
            ) && api_version == oldest)
        }),
{
    calibration_state::law_corruption_is_calibrated(log.bytes, decoded);
}

/// Both ends of a log that some records were produced to, as
/// `list-offsets/earliest-latest` sees them.
pub proof fn law_log_ends_are_calibrated(
    log: LogView,
    first: ListPartitionView,
    last: ListPartitionView,
    version: i16,
    wrong: bool,
)
    requires
        0 <= log.next_offset,
        first.timestamp == EARLIEST_TIMESTAMP,
        last.timestamp == LATEST_TIMESTAMP,
    ensures
        ({
            let faults = calibration_state::only_if(Fault::ListOffsetsWrongEarliest, wrong);
            let verdict = server_log::spec_judge_ends(
                version,
                log::listed_offset(Some(log), first, faults).1,
                log::listed_offset(Some(log), last, faults).1,
                log.next_offset,
            );
            &&& !wrong ==> verdict == VerdictView::Pass
            &&& wrong ==> verdict is Fail
        }),
{
    let fault = Fault::ListOffsetsWrongEarliest;
    calibration_state::lemma_only_if(fault, wrong, fault);
}

/// The times at which, and after which, the probe batch was written, as
/// `list-offsets/by-timestamp` sees the offsets they are answered with.
pub proof fn law_timestamps_are_calibrated(
    log: LogView,
    batch: RecordBatch,
    stamp: BatchStamp,
    first: ListPartitionView,
    future: ListPartitionView,
    log_end: bool,
)
    requires
        batch::is_probe_batch(batch, stamp),
        log.next_offset == batch::PROBE_RECORDS,
        first.timestamp == batch::PROBE_FIRST_TIMESTAMP,
        future.timestamp == server_log::AFTER_EVERY_RECORD,
        first.stored == Some(seq![batch]),
        future.stored == Some(seq![batch]),
    ensures
        ({
            let faults = calibration_state::only_if(
                Fault::ListOffsetsTimestampReturnsLogEnd,
                log_end,
            );
            let at_first = log::listed_offset(Some(log), first, faults).1;
            let after = log::listed_offset(Some(log), future, faults).1;
            &&& !log_end ==> server_log::spec_judge_first_time(at_first) == VerdictView::Pass
                && server_log::spec_judge_future(after) == VerdictView::Pass
            &&& log_end ==> server_log::spec_judge_first_time(at_first) is Fail
                && server_log::spec_judge_future(after) is Fail
        }),
{
    let fault = Fault::ListOffsetsTimestampReturnsLogEnd;
    calibration_state::lemma_only_if(fault, log_end, fault);
    let records = match batch.records {
        Records::Plain(records) => records@,
        _ => Seq::empty(),
    };
    let stored = seq![batch];
    reveal_with_fuel(log::search_from, 3);
    reveal_with_fuel(log::first_at, 4);
    assert(stored[0] == batch);
    assert(log::first_at(records, batch.base_timestamp, first.timestamp, 0) == Some(0int));
    assert(log::first_at(records, batch.base_timestamp, future.timestamp, 0) is None);
}

/// A fetch at the end of a log and one below it, as
/// `fetch/long-poll-contract` sees the time they take: the first waits as
/// long as it was asked to, which is no violation, unless the wait is ignored
/// and it takes no longer than the exchange itself; the second does not wait.
pub proof fn law_long_poll_is_calibrated(
    state: ClusterView,
    idle: FetchAskView,
    ready: FetchAskView,
    ignores: bool,
)
    requires
        idle.min_bytes == 1,
        idle.max_wait_ms == server_log::LONG_POLL_MS,
        idle.topics.len() == 1,
        idle.topics[0].topic.len() > 0,
        idle.topics[0].partitions.len() == 1,
        state.logs.contains_key((idle.topics[0].topic, idle.topics[0].partitions[0].partition)),
        idle.topics[0].partitions[0].fetch_offset
            >= state.logs[(idle.topics[0].topic, idle.topics[0].partitions[0].partition)].next_offset,
        ready.topics.len() == 1,
        ready.topics[0].topic == idle.topics[0].topic,
        ready.topics[0].partitions.len() == 1,
        ready.topics[0].partitions[0].partition == idle.topics[0].partitions[0].partition,
        ready.topics[0].partitions[0].fetch_offset
            < state.logs[(idle.topics[0].topic, idle.topics[0].partitions[0].partition)].next_offset,
    ensures
        ({
            let faults = calibration_state::only_if(Fault::FetchIgnoresMaxWait, ignores);
            let wait = log::spec_fetch_wait(state, idle, faults);
            &&& !ignores ==> wait is Some && server_log::spec_judge_idle(
                (wait->Some_0 * 1_000_000) as u64,
            ) == VerdictView::Pass
            &&& ignores ==> wait is None && forall|took: u64|
                took < server_log::LONG_POLL_FLOOR ==> #[trigger] server_log::spec_judge_idle(
                    took,
                ) is Fail
            &&& log::spec_fetch_wait(state, ready, faults) is None
            &&& forall|took: u64|
                took < server_log::LONG_POLL_FLOOR ==> #[trigger] server_log::spec_judge_ready(
                    took,
                ) == VerdictView::Pass
        }),
{
    let fault = Fault::FetchIgnoresMaxWait;
    calibration_state::lemma_only_if(fault, ignores, fault);
    let topic = idle.topics[0];
    if log::spec_satisfiable(state, idle) {
        let i = choose|i: int|
            0 <= i < idle.topics.len() && log::topic_has_records(state, #[trigger] idle.topics[i]);
        let j = choose|j: int|
            0 <= j < topic.partitions.len() && log::has_records(
                state,
                topic,
                #[trigger] topic.partitions[j],
            );
        assert(log::has_records(state, topic, topic.partitions[0]));
    }
    let wanted = ready.topics[0];
    assert(log::has_records(state, wanted, wanted.partitions[0]));
    assert(log::topic_has_records(state, ready.topics[0]));
}

} // verus!

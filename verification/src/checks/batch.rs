//! The record batches the produce checks send.

use vstd::prelude::*;
use vstd::string::*;

use crate::checks::flows::{NO_EPOCH, NO_PRODUCER, NO_SEQUENCE};
use crate::checks::tape::BatchStamp;
use crate::text::line;
use crate::wire::{InitProducerIdAnswer, Record, RecordBatch, RecordHeader, Records, TxnActor};
use crate::wire::TxnActorOf;

verus! {

/// The batch attribute that marks a batch as transactional.
pub const TRANSACTIONAL_ATTR: i16 = 16;
/// The batch attribute that says gzip.
pub const GZIP_ATTR: i16 = 1;

pub open spec fn opt_bytes(o: Option<Vec<u8>>) -> Option<Seq<u8>> {
    match o {
        Some(b) => Some(b@),
        None => None,
    }
}

/// The two records of the probe batch: a keyed value with a header, and a
/// tombstone a millisecond and an offset later.
pub open spec fn are_probe_records(records: Seq<Record>) -> bool {
    &&& records.len() == 2
    &&& records[0].timestamp_delta == 0
    &&& records[0].offset_delta == 0
    &&& opt_bytes(records[0].key) == Some("probe-key".spec_bytes())
    &&& opt_bytes(records[0].value) == Some("odradek conformance probe".spec_bytes())
    &&& records[0].headers@.len() == 1
    &&& records[0].headers@[0].key@ == "origin"@
    &&& opt_bytes(records[0].headers@[0].value) == Some("odradek-accept".spec_bytes())
    &&& records[1].timestamp_delta == 1
    &&& records[1].offset_delta == 1
    &&& opt_bytes(records[1].key) == Some("probe-tombstone".spec_bytes())
    &&& records[1].value is None
    &&& records[1].headers@.len() == 0
}

/// The probe batch under a stamp.
pub open spec fn is_probe_batch(batch: RecordBatch, stamp: BatchStamp) -> bool {
    &&& batch.base_offset == 0
    &&& batch.attributes == (if stamp.transactional { TRANSACTIONAL_ATTR } else { 0 })
    &&& batch.last_offset_delta == 1
    &&& batch.base_timestamp == 1_758_000_000_000
    &&& batch.max_timestamp == 1_758_000_000_001
    &&& batch.producer_id == stamp.producer_id
    &&& batch.producer_epoch == stamp.producer_epoch
    &&& batch.base_sequence == stamp.base_sequence
    &&& batch.records matches Records::Plain(records) && are_probe_records(records@)
}

/// The batch every produce and fetch check sends: two records with keys,
/// values, a header and a tombstone, enough shape to make byte-level
/// integrity meaningful.
pub fn probe_batch(stamp: BatchStamp) -> (r: RecordBatch)
    ensures
        is_probe_batch(r, stamp),
{
    let mut headers: Vec<RecordHeader> = Vec::new();
    headers.push(
        RecordHeader {
            key: String::from_str("origin"),
            value: Some("odradek-accept".as_bytes_vec()),
        },
    );
    let mut records: Vec<Record> = Vec::new();
    records.push(
        Record {
            timestamp_delta: 0,
            offset_delta: 0,
            key: Some("probe-key".as_bytes_vec()),
            value: Some("odradek conformance probe".as_bytes_vec()),
            headers,
        },
    );
    records.push(
        Record {
            timestamp_delta: 1,
            offset_delta: 1,
            key: Some("probe-tombstone".as_bytes_vec()),
            value: None,
            headers: Vec::new(),
        },
    );
    RecordBatch {
        base_offset: 0,
        attributes: if stamp.transactional { TRANSACTIONAL_ATTR } else { 0 },
        last_offset_delta: 1,
        base_timestamp: 1_758_000_000_000,
        max_timestamp: 1_758_000_000_001,
        producer_id: stamp.producer_id,
        producer_epoch: stamp.producer_epoch,
        base_sequence: stamp.base_sequence,
        records: Records::Plain(records),
    }
}

/// How many records the probe batch holds.
pub const PROBE_RECORDS: i64 = 2;
/// The timestamp of its first record.
pub const PROBE_FIRST_TIMESTAMP: i64 = 1_758_000_000_000;
/// The timestamp of its last one.
pub const PROBE_LAST_TIMESTAMP: i64 = 1_758_000_000_001;

pub open spec fn record_count(batch: RecordBatch) -> i64 {
    match batch.records {
        Records::Plain(records) => records@.len() as i64,
        Records::Compressed { count, payload } => count as i64,
    }
}

/// Records in a batch, from whichever representation it decoded to.
pub fn batch_record_count(batch: &RecordBatch) -> (r: i64)
    ensures
        r == record_count(*batch),
{
    match &batch.records {
        Records::Plain(records) => records.len() as i64,
        Records::Compressed { count, .. } => *count as i64,
    }
}

/// Which step of a compression failed, and how.
#[derive(Debug)]
pub enum GzipFault<S> {
    Writing(S),
    Finishing(S),
}

/// What gzip makes of some bytes, or which step failed.
pub uninterp spec fn gzipped(bytes: Seq<u8>) -> Result<Seq<u8>, GzipFault<Seq<char>>>;

/// A compression's outcome by its bytes or its characters.
pub open spec fn gzip_view(r: Result<Vec<u8>, GzipFault<String>>) -> Result<
    Seq<u8>,
    GzipFault<Seq<char>>,
> {
    match r {
        Ok(bytes) => Ok(bytes@),
        Err(GzipFault::Writing(e)) => Err(GzipFault::Writing(e@)),
        Err(GzipFault::Finishing(e)) => Err(GzipFault::Finishing(e@)),
    }
}

/// `flate2::write::GzEncoder` over a growing buffer, at
/// `flate2::Compression::default()`: everything is written, then `finish` is
/// called. The header it writes holds neither a time nor a name nor the
/// machine's system, so the outcome is a function of the bytes; that
/// function is the name `gzipped`, and nothing more is claimed of it.
#[verifier::external_body]
fn gzip(bytes: &[u8]) -> (r: Result<Vec<u8>, GzipFault<String>>)
    ensures
        gzip_view(r) == gzipped(bytes@),
{
    let mut encoder = flate2::write::GzEncoder::new(Vec::new(), flate2::Compression::default());
    match std::io::Write::write_all(&mut encoder, bytes) {
        Err(e) => Err(GzipFault::Writing(e.to_string())),
        Ok(()) => match encoder.finish() {
            Err(e) => Err(GzipFault::Finishing(e.to_string())),
            Ok(payload) => Ok(payload),
        },
    }
}

/// The gzipped bytes, or what is said of the step that failed.
pub open spec fn spec_told(outcome: Result<Seq<u8>, GzipFault<Seq<char>>>) -> Result<
    Seq<u8>,
    Seq<char>,
> {
    match outcome {
        Ok(payload) => Ok(payload),
        Err(GzipFault::Writing(e)) => Err("gzipping the record set: "@ + e),
        Err(GzipFault::Finishing(e)) => Err("finishing the gzip stream: "@ + e),
    }
}

/// Gzipped bytes or what is said instead, by bytes or characters.
pub open spec fn squeezed(r: Result<Vec<u8>, String>) -> Result<Seq<u8>, Seq<char>> {
    match r {
        Ok(bytes) => Ok(bytes@),
        Err(details) => Err(details@),
    }
}

/// Says which step of a compression failed.
pub fn told(outcome: Result<Vec<u8>, GzipFault<String>>) -> (r: Result<Vec<u8>, String>)
    ensures
        squeezed(r) == spec_told(gzip_view(outcome)),
{
    match outcome {
        Ok(payload) => Ok(payload),
        Err(GzipFault::Writing(e)) => Err(
            line("gzipping the record set: ").lit(e.as_str()).done(),
        ),
        Err(GzipFault::Finishing(e)) => Err(
            line("finishing the gzip stream: ").lit(e.as_str()).done(),
        ),
    }
}

/// Gzips encoded records.
pub fn gzip_records(plain: &Vec<u8>) -> (r: Result<Vec<u8>, String>)
    ensures
        squeezed(r) == spec_told(gzipped(plain@)),
{
    told(gzip(plain.as_slice()))
}

/// The probe batch around a gzipped payload: the codec declared, the count
/// of records kept.
pub open spec fn is_gzip_batch(batch: RecordBatch, payload: Seq<u8>) -> bool {
    &&& batch.base_offset == 0
    &&& batch.attributes == GZIP_ATTR
    &&& batch.last_offset_delta == 1
    &&& batch.base_timestamp == PROBE_FIRST_TIMESTAMP
    &&& batch.max_timestamp == PROBE_LAST_TIMESTAMP
    &&& batch.producer_id == NO_PRODUCER
    &&& batch.producer_epoch == NO_EPOCH
    &&& batch.base_sequence == NO_SEQUENCE
    &&& batch.records matches Records::Compressed { count, payload: held } && count
        == PROBE_RECORDS && held@ == payload
}

/// Builds the probe batch around a gzipped payload.
pub fn gzip_batch(payload: Vec<u8>) -> (r: RecordBatch)
    ensures
        is_gzip_batch(r, payload@),
{
    let batch = probe_batch(
        BatchStamp {
            producer_id: NO_PRODUCER,
            producer_epoch: NO_EPOCH,
            base_sequence: NO_SEQUENCE,
            transactional: false,
        },
    );
    let attributes: i16 = batch.attributes | GZIP_ATTR;
    assert(0i16 | 1i16 == 1i16) by (bit_vector);
    let count: i32 = match &batch.records {
        Records::Plain(records) => if records.len() <= 0x7fff_ffff {
            records.len() as i32
        } else {
            0
        },
        Records::Compressed { .. } => 0,
    };
    RecordBatch { attributes, records: Records::Compressed { count, payload }, ..batch }
}

/// The records of several batches together.
pub open spec fn total_records(batches: Seq<RecordBatch>) -> i64
    decreases batches.len(),
{
    if batches.len() == 0 {
        0
    } else {
        total_records(batches.drop_last()).wrapping_add(record_count(batches.last()))
    }
}

pub fn count_records(batches: &Vec<RecordBatch>) -> (r: i64)
    ensures
        r == total_records(batches@),
{
    let mut sum: i64 = 0;
    let mut i: usize = 0;
    while i < batches.len()
        invariant
            i <= batches@.len(),
            sum == total_records(batches@.take(i as int)),
        decreases batches@.len() - i,
    {
        assert(batches@.take(i + 1).drop_last() =~= batches@.take(i as int));
        sum = sum.wrapping_add(batch_record_count(&batches[i]));
        i = i + 1;
    }
    assert(batches@.take(i as int) =~= batches@);
    sum
}

/// The probe batch holds as many records as [`PROBE_RECORDS`] says, over the
/// span of time its timestamps say.
pub proof fn law_probe_batch(batch: RecordBatch, stamp: BatchStamp)
    requires
        is_probe_batch(batch, stamp),
    ensures
        record_count(batch) == PROBE_RECORDS,
        batch.base_timestamp == PROBE_FIRST_TIMESTAMP,
        batch.max_timestamp == PROBE_LAST_TIMESTAMP,
{
}

/// What a produce stamps its batch with, and the transaction it belongs to.
#[derive(Debug)]
pub struct ProduceStampOf<S> {
    pub producer_id: i64,
    pub producer_epoch: i16,
    pub base_sequence: i32,
    pub transactional_id: Option<S>,
}

pub type ProduceStamp = ProduceStampOf<String>;

impl View for ProduceStampOf<String> {
    type V = ProduceStampOf<Seq<char>>;

    open spec fn view(&self) -> ProduceStampOf<Seq<char>> {
        ProduceStampOf {
            producer_id: self.producer_id,
            producer_epoch: self.producer_epoch,
            base_sequence: self.base_sequence,
            transactional_id: crate::wire::opt_view(self.transactional_id),
        }
    }
}

impl<S> ProduceStampOf<S> {
    /// The part of the stamp that the batch itself carries.
    pub open spec fn spec_on_batch(self) -> BatchStamp {
        BatchStamp {
            producer_id: self.producer_id,
            producer_epoch: self.producer_epoch,
            base_sequence: self.base_sequence,
            transactional: self.transactional_id is Some,
        }
    }

    pub fn on_batch(&self) -> (r: BatchStamp)
        ensures
            r == self.spec_on_batch(),
    {
        BatchStamp {
            producer_id: self.producer_id,
            producer_epoch: self.producer_epoch,
            base_sequence: self.base_sequence,
            transactional: self.transactional_id.is_some(),
        }
    }
}

pub open spec fn spec_transactional(actor: TxnActorOf<Seq<char>>, base_sequence: i32)
    -> ProduceStampOf<Seq<char>> {
    ProduceStampOf {
        producer_id: actor.producer_id,
        producer_epoch: actor.producer_epoch,
        base_sequence,
        transactional_id: Some(actor.transactional_id),
    }
}

pub open spec fn spec_plain_stamp() -> ProduceStampOf<Seq<char>> {
    ProduceStampOf {
        producer_id: NO_PRODUCER,
        producer_epoch: NO_EPOCH,
        base_sequence: NO_SEQUENCE,
        transactional_id: None,
    }
}

pub open spec fn spec_idempotent(identity: InitProducerIdAnswer, base_sequence: i32)
    -> ProduceStampOf<Seq<char>> {
    ProduceStampOf {
        producer_id: identity.producer_id,
        producer_epoch: identity.producer_epoch,
        base_sequence,
        transactional_id: None,
    }
}

impl ProduceStampOf<String> {
    /// The stamp of a write inside an actor's transaction.
    pub fn transactional(actor: &TxnActor, base_sequence: i32) -> (r: ProduceStamp)
        ensures
            r@ == spec_transactional(actor@, base_sequence),
    {
        ProduceStampOf {
            producer_id: actor.producer_id,
            producer_epoch: actor.producer_epoch,
            base_sequence,
            transactional_id: Some(actor.transactional_id.clone()),
        }
    }

    /// The stamp of an ordinary write: no producer identity, no transaction.
    pub fn plain() -> (r: ProduceStamp)
        ensures
            r@ == spec_plain_stamp(),
    {
        ProduceStampOf {
            producer_id: NO_PRODUCER,
            producer_epoch: NO_EPOCH,
            base_sequence: NO_SEQUENCE,
            transactional_id: None,
        }
    }

    /// The stamp of an idempotent write outside any transaction.
    pub fn idempotent(identity: &InitProducerIdAnswer, base_sequence: i32) -> (r: ProduceStamp)
        ensures
            r@ == spec_idempotent(*identity, base_sequence),
    {
        ProduceStampOf {
            producer_id: identity.producer_id,
            producer_epoch: identity.producer_epoch,
            base_sequence,
            transactional_id: None,
        }
    }
}

} // verus!

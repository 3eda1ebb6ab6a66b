//! How the reference subject takes a request to its handler and frames what
//! comes back.

use vstd::prelude::*;
use vstd::string::*;

use crate::checks::client;
use crate::checks::client::frame_api;
use crate::checks::ctx;
use crate::checks::ctx::advertised_range;
use crate::subject::groups;
use crate::subject::log;
use crate::subject::offsets;
use crate::subject::replies::{
    ApiVersionsReply, ApiVersionsReplyView, ConsumerGroupReply, ConsumerGroupReplyView,
    CreateTopicsReply, CreateTopicsReplyView, DeleteTopicsReply, DeleteTopicsReplyView,
    DescribeGroupsReply, DescribeGroupsReplyView, FetchReply, FetchReplyView, FindCoordinatorReply,
    FindCoordinatorReplyView, InitProducerIdReply, JoinGroupReply, JoinGroupReplyView,
    ListOffsetsReply, ListOffsetsReplyView, MetadataReply, MetadataReplyView, OffsetCommitReply,
    OffsetCommitReplyView, OffsetFetchReply, OffsetFetchReplyView, ProduceReply, ProduceReplyView,
    SaslAuthenticateReply, SaslAuthenticateReplyView, SaslHandshakeReply, SaslHandshakeReplyView,
    SyncGroupReply, SyncGroupReplyView, TxnCodesReply, TxnCodesReplyView,
};
use crate::subject::requests::{
    AddOffsetsAsk, AddOffsetsAskView, AddPartitionsAsk, AddPartitionsAskView, ConsumerGroupAsk,
    ConsumerGroupAskView, CreateTopicsAsk, CreateTopicsAskView, DeleteTopicsAsk,
    DeleteTopicsAskView, DescribeGroupsAsk, DescribeGroupsAskView, EndTxnAsk, EndTxnAskView,
    FetchAsk, FetchAskView, FindCoordinatorAsk, FindCoordinatorAskView, HeartbeatAsk,
    HeartbeatAskView, InitProducerIdAsk, InitProducerIdAskView, JoinGroupAsk, JoinGroupAskView,
    LeaveGroupAsk, LeaveGroupAskView, ListOffsetsAsk, ListOffsetsAskView, MetadataAsk,
    MetadataAskView, OffsetCommitAsk, OffsetCommitAskView, OffsetFetchAsk, OffsetFetchAskView,
    ProduceAsk, ProduceAskView, SyncGroupAsk, SyncGroupAskView, TxnOffsetsAsk, TxnOffsetsAskView,
};
use crate::subject::sasl;
use crate::subject::sasl::{SaslState, SaslView};
use crate::subject::state::{ClusterState, ClusterView};
use crate::subject::topics;
use crate::subject::topics::advertised_keys;
use crate::subject::txn;
use crate::subject::{injected, Fault};
use crate::wire::{Schema, API_VERSIONS, NONE};

verus! {

/// Whether the subject serves a version of an api: one it advertises; of
/// ApiVersions every one, because a version it does not speak is answered
/// too.
pub open spec fn spec_serves(schema: Schema, api_key: i16, api_version: i16) -> bool {
    match ctx::spec_advertised(topics::spec_advertised_keys(schema), api_key) {
        Some((min, max)) => api_key == API_VERSIONS || min <= api_version <= max,
        None => false,
    }
}

/// Whether the subject serves a version of an api.
pub fn serves(schema: &Schema, api_key: i16, api_version: i16) -> (r: bool)
    ensures
        r == spec_serves(*schema, api_key, api_version),
{
    match advertised_range(&advertised_keys(schema), api_key) {
        Some((min, max)) => api_key == API_VERSIONS || (min <= api_version && api_version <= max),
        None => false,
    }
}

/// The api and version of a frame that is looked at further; none where the
/// connection is closed instead.
pub open spec fn spec_open_frame(frame: Seq<u8>, down: bool, schema: Schema) -> Option<(i16, i16)> {
    match client::spec_frame_api(frame) {
        Some((api_key, api_version)) => if !down && spec_serves(schema, api_key, api_version) {
            Some((api_key, api_version))
        } else {
            None
        },
        None => None,
    }
}

/// Looks at a frame that a broker was sent. A frame too short to name an api,
/// a broker that is stopped, an api or a version that is not served: each
/// closes the connection.
pub fn open_frame(frame: &Vec<u8>, down: bool, schema: &Schema) -> (r: Option<(i16, i16)>)
    ensures
        r == spec_open_frame(frame@, down, *schema),
{
    match frame_api(frame) {
        Some((api_key, api_version)) => {
            if !down && serves(schema, api_key, api_version) {
                Some((api_key, api_version))
            } else {
                None
            }
        },
        None => None,
    }
}

/// What is known of a request beside its body: its correlation id and
/// version, and the header version that the codec gives such an answer.
#[derive(Debug, Clone, Copy)]
pub struct Asked {
    pub correlation_id: i32,
    pub api_version: i16,
    pub header_version: i16,
}

/// How an answer goes onto the wire.
#[derive(Debug, Clone, Copy)]
pub struct Framing {
    pub correlation_id: i32,
    pub header_version: i16,
    pub encode_at: i16,
    pub trailing_garbage: bool,
}

/// The framing of most answers: as the request was, with nothing after it.
pub open spec fn spec_framing(asked: Asked) -> Framing {
    Framing {
        correlation_id: asked.correlation_id,
        header_version: asked.header_version,
        encode_at: asked.api_version,
        trailing_garbage: false,
    }
}

fn framing(asked: Asked) -> (r: Framing)
    ensures
        r == spec_framing(asked),
{
    Framing {
        correlation_id: asked.correlation_id,
        header_version: asked.header_version,
        encode_at: asked.api_version,
        trailing_garbage: false,
    }
}

/// The framing of an ApiVersions answer: always with the plain header, and at
/// version 0 where the version asked for is not spoken.
pub open spec fn spec_api_versions_framing(asked: Asked, schema: Schema, faults: Seq<Fault>)
    -> Framing {
    let supported = topics::spec_supported(schema, asked.api_version);
    Framing {
        correlation_id: if faults.contains(Fault::WrongCorrelationEcho) {
            asked.correlation_id.wrapping_add(1)
        } else {
            asked.correlation_id
        },
        header_version: if faults.contains(Fault::FlexibleHeaderOnV3) && supported
            && asked.api_version >= 3 {
            1
        } else {
            0
        },
        encode_at: if supported {
            asked.api_version
        } else if faults.contains(Fault::ErrorBodyNotV0) {
            3
        } else {
            0
        },
        trailing_garbage: faults.contains(Fault::TrailingGarbage),
    }
}

fn api_versions_framing(asked: Asked, schema: &Schema, faults: &Vec<Fault>) -> (r: Framing)
    ensures
        r == spec_api_versions_framing(asked, *schema, faults@),
{
    let supported = asked.api_version <= schema.api_versions.max;
    Framing {
        correlation_id: if injected(faults, Fault::WrongCorrelationEcho) {
            asked.correlation_id.wrapping_add(1)
        } else {
            asked.correlation_id
        },
        header_version: if injected(faults, Fault::FlexibleHeaderOnV3) && supported
            && asked.api_version >= 3 {
            1
        } else {
            0
        },
        encode_at: if supported {
            asked.api_version
        } else if injected(faults, Fault::ErrorBodyNotV0) {
            3
        } else {
            0
        },
        trailing_garbage: injected(faults, Fault::TrailingGarbage),
    }
}

/// The first Metadata version that is flexible.
pub const METADATA_FLEXIBLE: i16 = 9;

/// The framing of a Metadata answer: flexible ones have tagged fields in the
/// header too.
pub open spec fn spec_metadata_framing(asked: Asked, faults: Seq<Fault>) -> Framing {
    Framing {
        header_version: if asked.api_version >= METADATA_FLEXIBLE && !faults.contains(
            Fault::MetadataNonFlexibleHeader,
        ) {
            1
        } else {
            0
        },
        ..spec_framing(asked)
    }
}

fn metadata_framing(asked: Asked, faults: &Vec<Fault>) -> (r: Framing)
    ensures
        r == spec_metadata_framing(asked, faults@),
{
    let mut r = framing(asked);
    r.header_version = if asked.api_version >= METADATA_FLEXIBLE && !injected(
        faults,
        Fault::MetadataNonFlexibleHeader,
    ) {
        1
    } else {
        0
    };
    r
}

/// The Produce version that the fault misshapes.
pub const MISSHAPEN_VERSION: i16 = 5;

/// The framing of a Produce answer.
pub open spec fn spec_produce_framing(asked: Asked, faults: Seq<Fault>) -> Framing {
    Framing {
        encode_at: if faults.contains(Fault::MisshapesOneProduceVersion) && asked.api_version
            == MISSHAPEN_VERSION {
            0
        } else {
            asked.api_version
        },
        ..spec_framing(asked)
    }
}

fn produce_framing(asked: Asked, faults: &Vec<Fault>) -> (r: Framing)
    ensures
        r == spec_produce_framing(asked, faults@),
{
    let mut r = framing(asked);
    if injected(faults, Fault::MisshapesOneProduceVersion) && asked.api_version
        == MISSHAPEN_VERSION {
        r.encode_at = 0;
    }
    r
}

/// The framing of a Fetch answer.
pub open spec fn spec_fetch_framing(asked: Asked, faults: Seq<Fault>) -> Framing {
    Framing {
        trailing_garbage: faults.contains(Fault::FetchTrailingGarbage),
        ..spec_framing(asked)
    }
}

fn fetch_framing(asked: Asked, faults: &Vec<Fault>) -> (r: Framing)
    ensures
        r == spec_fetch_framing(asked, faults@),
{
    let mut r = framing(asked);
    r.trailing_garbage = injected(faults, Fault::FetchTrailingGarbage);
    r
}

/// The bytes that a fault puts after a body.
pub open spec fn spec_garbage(trailing: bool) -> Seq<u8> {
    if trailing {
        seq![0xdeu8, 0xadu8, 0xbeu8]
    } else {
        Seq::empty()
    }
}

/// What a frame holds after its length: the header, the body, and whatever a
/// fault puts behind them.
pub fn frame_payload(header: Vec<u8>, body: &Vec<u8>, trailing_garbage: bool) -> (r: Vec<u8>)
    ensures
        r@ == header@ + body@ + spec_garbage(trailing_garbage),
{
    let mut out = header;
    let ghost start = out@;
    let mut i: usize = 0;
    assert(out@ =~= start + body@.take(0));
    while i < body.len()
        invariant
            i <= body@.len(),
            out@ == start + body@.take(i as int),
        decreases body@.len() - i,
    {
        out.push(body[i]);
        i = i + 1;
        assert(out@ =~= start + body@.take(i as int));
    }
    assert(body@.take(i as int) =~= body@);
    if trailing_garbage {
        out.push(0xde);
        out.push(0xad);
        out.push(0xbe);
    }
    assert(out@ =~= start + body@ + spec_garbage(trailing_garbage));
    out
}

/// A request that a broker read. What SaslAuthenticate carries is what the
/// SCRAM server made of its token, where it was for it.
#[derive(Debug)]
pub enum Request {
    ApiVersions,
    Produce(ProduceAsk),
    Fetch(FetchAsk),
    SaslHandshake(String),
    SaslAuthenticate(Result<String, String>),
    Metadata(MetadataAsk),
    CreateTopics(CreateTopicsAsk),
    DeleteTopics(DeleteTopicsAsk),
    ListOffsets(ListOffsetsAsk),
    FindCoordinator(FindCoordinatorAsk),
    OffsetCommit(OffsetCommitAsk),
    OffsetFetch(OffsetFetchAsk),
    JoinGroup(JoinGroupAsk),
    SyncGroup(SyncGroupAsk),
    Heartbeat(HeartbeatAsk),
    LeaveGroup(LeaveGroupAsk),
    DescribeGroups(DescribeGroupsAsk),
    ConsumerGroup(ConsumerGroupAsk),
    InitProducerId(InitProducerIdAsk),
    AddPartitions(AddPartitionsAsk),
    EndTxn(EndTxnAsk),
    AddOffsets(AddOffsetsAsk),
    TxnOffsets(TxnOffsetsAsk),
}

pub enum RequestView {
    ApiVersions,
    Produce(ProduceAskView),
    Fetch(FetchAskView),
    SaslHandshake(Seq<char>),
    SaslAuthenticate(Result<Seq<char>, Seq<char>>),
    Metadata(MetadataAskView),
    CreateTopics(CreateTopicsAskView),
    DeleteTopics(DeleteTopicsAskView),
    ListOffsets(ListOffsetsAskView),
    FindCoordinator(FindCoordinatorAskView),
    OffsetCommit(OffsetCommitAskView),
    OffsetFetch(OffsetFetchAskView),
    JoinGroup(JoinGroupAskView),
    SyncGroup(SyncGroupAskView),
    Heartbeat(HeartbeatAskView),
    LeaveGroup(LeaveGroupAskView),
    DescribeGroups(DescribeGroupsAskView),
    ConsumerGroup(ConsumerGroupAskView),
    InitProducerId(InitProducerIdAskView),
    AddPartitions(AddPartitionsAskView),
    EndTxn(EndTxnAskView),
    AddOffsets(AddOffsetsAskView),
    TxnOffsets(TxnOffsetsAskView),
}

impl View for Request {
    type V = RequestView;

    open spec fn view(&self) -> RequestView {
        match *self {
            Request::ApiVersions => RequestView::ApiVersions,
            Request::Produce(ask) => RequestView::Produce(ask@),
            Request::Fetch(ask) => RequestView::Fetch(ask@),
            Request::SaslHandshake(mechanism) => RequestView::SaslHandshake(mechanism@),
            Request::SaslAuthenticate(scram) => RequestView::SaslAuthenticate(
                sasl::outcome_view(scram),
            ),
            Request::Metadata(ask) => RequestView::Metadata(ask@),
            Request::CreateTopics(ask) => RequestView::CreateTopics(ask@),
            Request::DeleteTopics(ask) => RequestView::DeleteTopics(ask@),
            Request::ListOffsets(ask) => RequestView::ListOffsets(ask@),
            Request::FindCoordinator(ask) => RequestView::FindCoordinator(ask@),
            Request::OffsetCommit(ask) => RequestView::OffsetCommit(ask@),
            Request::OffsetFetch(ask) => RequestView::OffsetFetch(ask@),
            Request::JoinGroup(ask) => RequestView::JoinGroup(ask@),
            Request::SyncGroup(ask) => RequestView::SyncGroup(ask@),
            Request::Heartbeat(ask) => RequestView::Heartbeat(ask@),
            Request::LeaveGroup(ask) => RequestView::LeaveGroup(ask@),
            Request::DescribeGroups(ask) => RequestView::DescribeGroups(ask@),
            Request::ConsumerGroup(ask) => RequestView::ConsumerGroup(ask@),
            Request::InitProducerId(ask) => RequestView::InitProducerId(ask@),
            Request::AddPartitions(ask) => RequestView::AddPartitions(ask@),
            Request::EndTxn(ask) => RequestView::EndTxn(ask@),
            Request::AddOffsets(ask) => RequestView::AddOffsets(ask@),
            Request::TxnOffsets(ask) => RequestView::TxnOffsets(ask@),
        }
    }
}

/// The body of an answer. Heartbeat, LeaveGroup, EndTxn and AddOffsetsToTxn
/// are answered by a code alone.
#[derive(Debug)]
pub enum Body {
    ApiVersions(ApiVersionsReply),
    Produce(ProduceReply),
    Fetch(FetchReply),
    SaslHandshake(SaslHandshakeReply),
    SaslAuthenticate(SaslAuthenticateReply),
    Metadata(MetadataReply),
    CreateTopics(CreateTopicsReply),
    DeleteTopics(DeleteTopicsReply),
    ListOffsets(ListOffsetsReply),
    FindCoordinator(FindCoordinatorReply),
    OffsetCommit(OffsetCommitReply),
    OffsetFetch(OffsetFetchReply),
    JoinGroup(JoinGroupReply),
    SyncGroup(SyncGroupReply),
    Code(i16),
    DescribeGroups(DescribeGroupsReply),
    ConsumerGroup(ConsumerGroupReply),
    InitProducerId(InitProducerIdReply),
    TxnCodes(TxnCodesReply),
}

pub enum BodyView {
    ApiVersions(ApiVersionsReplyView),
    Produce(ProduceReplyView),
    Fetch(FetchReplyView),
    SaslHandshake(SaslHandshakeReplyView),
    SaslAuthenticate(SaslAuthenticateReplyView),
    Metadata(MetadataReplyView),
    CreateTopics(CreateTopicsReplyView),
    DeleteTopics(DeleteTopicsReplyView),
    ListOffsets(ListOffsetsReplyView),
    FindCoordinator(FindCoordinatorReplyView),
    OffsetCommit(OffsetCommitReplyView),
    OffsetFetch(OffsetFetchReplyView),
    JoinGroup(JoinGroupReplyView),
    SyncGroup(SyncGroupReplyView),
    Code(i16),
    DescribeGroups(DescribeGroupsReplyView),
    ConsumerGroup(ConsumerGroupReplyView),
    InitProducerId(InitProducerIdReply),
    TxnCodes(TxnCodesReplyView),
}

impl View for Body {
    type V = BodyView;

    open spec fn view(&self) -> BodyView {
        match *self {
            Body::ApiVersions(reply) => BodyView::ApiVersions(reply@),
            Body::Produce(reply) => BodyView::Produce(reply@),
            Body::Fetch(reply) => BodyView::Fetch(reply@),
            Body::SaslHandshake(reply) => BodyView::SaslHandshake(reply@),
            Body::SaslAuthenticate(reply) => BodyView::SaslAuthenticate(reply@),
            Body::Metadata(reply) => BodyView::Metadata(reply@),
            Body::CreateTopics(reply) => BodyView::CreateTopics(reply@),
            Body::DeleteTopics(reply) => BodyView::DeleteTopics(reply@),
            Body::ListOffsets(reply) => BodyView::ListOffsets(reply@),
            Body::FindCoordinator(reply) => BodyView::FindCoordinator(reply@),
            Body::OffsetCommit(reply) => BodyView::OffsetCommit(reply@),
            Body::OffsetFetch(reply) => BodyView::OffsetFetch(reply@),
            Body::JoinGroup(reply) => BodyView::JoinGroup(reply@),
            Body::SyncGroup(reply) => BodyView::SyncGroup(reply@),
            Body::Code(reply) => BodyView::Code(reply),
            Body::DescribeGroups(reply) => BodyView::DescribeGroups(reply@),
            Body::ConsumerGroup(reply) => BodyView::ConsumerGroup(reply@),
            Body::InitProducerId(reply) => BodyView::InitProducerId(reply),
            Body::TxnCodes(reply) => BodyView::TxnCodes(reply@),
        }
    }
}

/// What a broker does about a request.
#[derive(Debug)]
pub enum Answer {
    /// It closes the connection.
    Close,
    /// It says nothing, which is the right answer to some requests.
    Silence,
    /// It sends a frame.
    Frame(Framing, Body),
}

pub enum AnswerView {
    Close,
    Silence,
    Frame(Framing, BodyView),
}

impl View for Answer {
    type V = AnswerView;

    open spec fn view(&self) -> AnswerView {
        match *self {
            Answer::Close => AnswerView::Close,
            Answer::Silence => AnswerView::Silence,
            Answer::Frame(framing, body) => AnswerView::Frame(framing, body@),
        }
    }
}

/// What a broker does about a produce. One that asked for no answer gets
/// none: a frame would be read as the answer to whatever is asked next.
pub open spec fn spec_produce_answer(
    reply: Option<ProduceReplyView>,
    acks: i16,
    asked: Asked,
    faults: Seq<Fault>,
) -> AnswerView {
    match reply {
        None => AnswerView::Close,
        Some(reply) => if acks == 0 && !faults.contains(Fault::ProduceAnswersAcksZero) {
            AnswerView::Silence
        } else {
            AnswerView::Frame(spec_produce_framing(asked, faults), BodyView::Produce(reply))
        },
    }
}

/// What one broker does about a request, and what that does to the cluster
/// and to the connection's SASL exchange.
pub open spec fn spec_serve(
    state: ClusterView,
    sasl: SaslView,
    request: RequestView,
    asked: Asked,
    schema: Schema,
    node_id: i32,
    faults: Seq<Fault>,
) -> (ClusterView, SaslView, AnswerView) {
    match request {
        RequestView::ApiVersions => (
            state,
            sasl,
            AnswerView::Frame(
                spec_api_versions_framing(asked, schema, faults),
                BodyView::ApiVersions(
                    topics::spec_api_versions(schema, asked.api_version, faults),
                ),
            ),
        ),
        RequestView::Produce(ask) => {
            let (after, reply) = log::spec_produce(state, ask, node_id, faults);
            (after, sasl, spec_produce_answer(reply, ask.acks, asked, faults))
        },
        RequestView::Fetch(ask) => (
            state,
            sasl,
            AnswerView::Frame(
                spec_fetch_framing(asked, faults),
                BodyView::Fetch(
                    log::spec_fetch(state, ask, asked.api_version, schema.fetch.min, faults),
                ),
            ),
        ),
        RequestView::SaslHandshake(mechanism) => {
            let (after, reply) = sasl::spec_handshake(sasl, mechanism, faults);
            (state, after, AnswerView::Frame(spec_framing(asked), BodyView::SaslHandshake(reply)))
        },
        RequestView::SaslAuthenticate(scram) => {
            let (after, reply) = sasl::spec_authenticate(sasl, scram, faults);
            (
                state,
                after,
                AnswerView::Frame(spec_framing(asked), BodyView::SaslAuthenticate(reply)),
            )
        },
        RequestView::Metadata(ask) => (
            state,
            sasl,
            AnswerView::Frame(
                spec_metadata_framing(asked, faults),
                BodyView::Metadata(topics::spec_metadata(state, ask, asked.correlation_id, node_id, faults)),
            ),
        ),
        RequestView::CreateTopics(ask) => {
            let (after, reply) = topics::spec_create_topics(state, ask, faults);
            (after, sasl, AnswerView::Frame(spec_framing(asked), BodyView::CreateTopics(reply)))
        },
        RequestView::DeleteTopics(ask) => {
            let (after, reply) = topics::spec_delete_topics(state, ask, faults);
            (after, sasl, AnswerView::Frame(spec_framing(asked), BodyView::DeleteTopics(reply)))
        },
        RequestView::ListOffsets(ask) => (
            state,
            sasl,
            AnswerView::Frame(
                spec_framing(asked),
                BodyView::ListOffsets(log::spec_list_offsets(state, ask, faults)),
            ),
        ),
        RequestView::FindCoordinator(ask) => (
            state,
            sasl,
            AnswerView::Frame(
                spec_framing(asked),
                BodyView::FindCoordinator(offsets::spec_find_coordinator(state, ask, asked.api_version, node_id, faults)),
            ),
        ),
        RequestView::OffsetCommit(ask) => {
            let (after, reply) = offsets::spec_offset_commit(state, ask, node_id, faults);
            (after, sasl, AnswerView::Frame(spec_framing(asked), BodyView::OffsetCommit(reply)))
        },
        RequestView::OffsetFetch(ask) => (
            state,
            sasl,
            AnswerView::Frame(
                spec_framing(asked),
                BodyView::OffsetFetch(offsets::spec_offset_fetch(state, ask, asked.api_version, faults)),
            ),
        ),
        RequestView::JoinGroup(ask) => {
            let (after, reply) = groups::spec_join_group(state, ask, asked.api_version, faults);
            (after, sasl, AnswerView::Frame(spec_framing(asked), BodyView::JoinGroup(reply)))
        },
        RequestView::SyncGroup(ask) => {
            let (after, reply) = groups::spec_sync_group(state, ask, faults);
            (after, sasl, AnswerView::Frame(spec_framing(asked), BodyView::SyncGroup(reply)))
        },
        RequestView::Heartbeat(ask) => {
            let (after, reply) = groups::spec_heartbeat(state, ask, faults);
            (after, sasl, AnswerView::Frame(spec_framing(asked), BodyView::Code(reply)))
        },
        RequestView::LeaveGroup(ask) => {
            let (after, reply) = (groups::spec_leave_group(state, ask, faults), NONE);
            (after, sasl, AnswerView::Frame(spec_framing(asked), BodyView::Code(reply)))
        },
        RequestView::DescribeGroups(ask) => (
            state,
            sasl,
            AnswerView::Frame(
                spec_framing(asked),
                BodyView::DescribeGroups(groups::spec_describe_groups(state, ask, faults)),
            ),
        ),
        RequestView::ConsumerGroup(ask) => {
            let (after, reply) = groups::spec_consumer_group(state, ask, faults);
            (after, sasl, AnswerView::Frame(spec_framing(asked), BodyView::ConsumerGroup(reply)))
        },
        RequestView::InitProducerId(ask) => {
            let (after, reply) = txn::spec_init_producer_id(state, ask, faults);
            (after, sasl, AnswerView::Frame(spec_framing(asked), BodyView::InitProducerId(reply)))
        },
        RequestView::AddPartitions(ask) => {
            let (after, reply) = txn::spec_add_partitions(state, ask, faults);
            (after, sasl, AnswerView::Frame(spec_framing(asked), BodyView::TxnCodes(reply)))
        },
        RequestView::EndTxn(ask) => {
            let (after, reply) = txn::spec_end_txn(state, ask, faults);
            (after, sasl, AnswerView::Frame(spec_framing(asked), BodyView::Code(reply)))
        },
        RequestView::AddOffsets(ask) => (
            state,
            sasl,
            AnswerView::Frame(
                spec_framing(asked),
                BodyView::Code(txn::spec_epoch_check(state, ask.transactional_id, ask.producer_epoch, faults)),
            ),
        ),
        RequestView::TxnOffsets(ask) => {
            let (after, reply) = txn::spec_txn_offsets(state, ask, faults);
            (after, sasl, AnswerView::Frame(spec_framing(asked), BodyView::TxnCodes(reply)))
        },
    }
}

/// Takes a request to its handler, as one broker of the cluster, and frames
/// what comes back.
pub fn serve(
    state: &mut ClusterState,
    sasl: &mut SaslState,
    request: Request,
    asked: Asked,
    schema: &Schema,
    node_id: i32,
    faults: &Vec<Fault>,
) -> (r: Answer)
    ensures
        (final(state)@, final(sasl)@, r@) == spec_serve(
            old(state)@,
            old(sasl)@,
            request@,
            asked,
            *schema,
            node_id,
            faults@,
        ),
{
    match request {
        Request::ApiVersions => Answer::Frame(
            api_versions_framing(asked, schema, faults),
            Body::ApiVersions(topics::api_versions(schema, asked.api_version, faults)),
        ),
        Request::Produce(ask) => match log::produce(state, &ask, node_id, faults) {
            None => Answer::Close,
            Some(reply) => {
                if ask.acks == 0 && !injected(faults, Fault::ProduceAnswersAcksZero) {
                    Answer::Silence
                } else {
                    Answer::Frame(produce_framing(asked, faults), Body::Produce(reply))
                }
            },
        },
        Request::Fetch(ask) => Answer::Frame(
            fetch_framing(asked, faults),
            Body::Fetch(log::fetch(state, &ask, asked.api_version, schema.fetch.min, faults)),
        ),
        Request::SaslHandshake(mechanism) => Answer::Frame(
            framing(asked),
            Body::SaslHandshake(sasl::handshake(sasl, &mechanism, faults)),
        ),
        Request::SaslAuthenticate(scram) => Answer::Frame(
            framing(asked),
            Body::SaslAuthenticate(sasl::authenticate(sasl, scram, faults)),
        ),
        Request::Metadata(ask) => Answer::Frame(
            metadata_framing(asked, faults),
            Body::Metadata(topics::metadata(state, &ask, asked.correlation_id, node_id, faults)),
        ),
        Request::CreateTopics(ask) => Answer::Frame(
            framing(asked),
            Body::CreateTopics(topics::create_topics(state, &ask, faults)),
        ),
        Request::DeleteTopics(ask) => Answer::Frame(
            framing(asked),
            Body::DeleteTopics(topics::delete_topics(state, &ask, faults)),
        ),
        Request::ListOffsets(ask) => Answer::Frame(
            framing(asked),
            Body::ListOffsets(log::list_offsets(state, &ask, faults)),
        ),
        Request::FindCoordinator(ask) => Answer::Frame(
            framing(asked),
            Body::FindCoordinator(offsets::find_coordinator(state, &ask, asked.api_version, node_id, faults)),
        ),
        Request::OffsetCommit(ask) => Answer::Frame(
            framing(asked),
            Body::OffsetCommit(offsets::offset_commit(state, &ask, node_id, faults)),
        ),
        Request::OffsetFetch(ask) => Answer::Frame(
            framing(asked),
            Body::OffsetFetch(offsets::offset_fetch(state, &ask, asked.api_version, faults)),
        ),
        Request::JoinGroup(ask) => Answer::Frame(
            framing(asked),
            Body::JoinGroup(groups::join_group(state, &ask, asked.api_version, faults)),
        ),
        Request::SyncGroup(ask) => Answer::Frame(
            framing(asked),
            Body::SyncGroup(groups::sync_group(state, &ask, faults)),
        ),
        Request::Heartbeat(ask) => Answer::Frame(
            framing(asked),
            Body::Code(groups::heartbeat(state, &ask, faults)),
        ),
        Request::LeaveGroup(ask) => Answer::Frame(
            framing(asked),
            Body::Code(groups::leave_group(state, &ask, faults)),
        ),
        Request::DescribeGroups(ask) => Answer::Frame(
            framing(asked),
            Body::DescribeGroups(groups::describe_groups(state, &ask, faults)),
        ),
        Request::ConsumerGroup(ask) => Answer::Frame(
            framing(asked),
            Body::ConsumerGroup(groups::consumer_group(state, &ask, faults)),
        ),
        Request::InitProducerId(ask) => Answer::Frame(
            framing(asked),
            Body::InitProducerId(txn::init_producer_id(state, &ask, faults)),
        ),
        Request::AddPartitions(ask) => Answer::Frame(
            framing(asked),
            Body::TxnCodes(txn::add_partitions(state, &ask, faults)),
        ),
        Request::EndTxn(ask) => Answer::Frame(
            framing(asked),
            Body::Code(txn::end_txn(state, &ask, faults)),
        ),
        Request::AddOffsets(ask) => Answer::Frame(
            framing(asked),
            Body::Code(txn::add_offsets(state, &ask, faults)),
        ),
        Request::TxnOffsets(ask) => Answer::Frame(
            framing(asked),
            Body::TxnCodes(txn::txn_offset_commit(state, &ask, faults)),
        ),
    }
}

} // verus!

//! How the impersonated cluster answers a client under test.

use vstd::prelude::*;
use vstd::string::*;

use crate::checks::client;
use crate::checks::client::{
    advertised, offered_mechanism, routing_topic, FaultEvent, HarnessFault, HarnessSchema,
    Observation, Route, RouteView, Session, API_VERSIONS_FLEXIBLE_MIN, BROKER_COUNT,
    HARNESS_PRODUCER, METADATA_FLEXIBLE_MIN, METADATA_THROTTLE_MIN, ROUTING_TOPIC_ID, THROTTLE_MS,
    UNKNOWN_TAG,
};
use crate::subject::log::{NO_LEADER_EPOCH, NO_OFFSET, NO_TIME};
use crate::subject::replies::{BrokerReply, BrokerReplyView, ListedPartition, ProducedPartition};
use crate::text;
use crate::text::same_text;
use crate::wire;
use crate::wire::{
    ApiVersion, TopicId, Versions, API_VERSIONS, FETCH, INIT_PRODUCER_ID, LIST_OFFSETS, METADATA,
    PRODUCE, SASL_AUTHENTICATE, SASL_HANDSHAKE,
};

verus! {

/// The impersonated cluster: broker `i` listens on `ports[i]`.
#[derive(Debug)]
pub struct Harness {
    pub ports: Vec<u16>,
    pub fault: Option<HarnessFault>,
    /// Current leader per partition of the routing topic.
    pub leaders: Vec<i32>,
    /// Leader moves that fired.
    pub events: Vec<FaultEvent>,
    /// Where a SASL token was refused.
    pub sasl_rejections: Vec<(usize, usize)>,
    /// Every answer that carried a throttle.
    pub throttles: Vec<(usize, usize, u64)>,
    /// Every answer that carried an unknown tagged field.
    pub tagged: Vec<(usize, usize)>,
    /// Connections whose handshake named the mechanism on offer.
    pub negotiated: Vec<usize>,
}

#[verifier::ext_equal]
pub struct HarnessView {
    pub ports: Seq<u16>,
    pub fault: Option<HarnessFault>,
    pub leaders: Seq<i32>,
    pub events: Seq<FaultEvent>,
    pub sasl_rejections: Seq<(usize, usize)>,
    pub throttles: Seq<(usize, usize, u64)>,
    pub tagged: Seq<(usize, usize)>,
    pub negotiated: Set<usize>,
}

impl View for Harness {
    type V = HarnessView;

    open spec fn view(&self) -> HarnessView {
        HarnessView {
            ports: self.ports@,
            fault: self.fault,
            leaders: self.leaders@,
            events: self.events@,
            sasl_rejections: self.sasl_rejections@,
            throttles: self.throttles@,
            tagged: self.tagged@,
            negotiated: self.negotiated@.to_set(),
        }
    }
}

/// Whether a partition's leadership was moved.
pub open spec fn has_moved(events: Seq<FaultEvent>, partition: i32) -> bool {
    exists|i: int| 0 <= i < events.len() && #[trigger] events[i].partition == partition
}

/// Whether a connection's token was refused.
pub open spec fn was_refused(rejections: Seq<(usize, usize)>, conn_id: usize) -> bool {
    exists|i: int| 0 <= i < rejections.len() && #[trigger] rejections[i].0 == conn_id
}

impl HarnessView {
    /// Every partition is led by one of the brokers; each is moved at most
    /// once; each connection is refused at most once; and a fault leaves its
    /// marks only where it is armed.
    pub open spec fn wf(self) -> bool {
        &&& self.leaders.len() == BROKER_COUNT
        &&& forall|i: int|
            0 <= i < self.leaders.len() ==> 0 <= #[trigger] self.leaders[i] < BROKER_COUNT
        &&& forall|i: int, j: int|
            0 <= i < j < self.events.len() ==> #[trigger] self.events[i].partition
                != #[trigger] self.events[j].partition
        &&& forall|i: int, j: int|
            0 <= i < j < self.sasl_rejections.len() ==> #[trigger] self.sasl_rejections[i].0
                != #[trigger] self.sasl_rejections[j].0
        &&& self.fault != Some(HarnessFault::LeaderMove) ==> self.events.len() == 0
        &&& self.fault != Some(HarnessFault::RejectSaslToken) ==> self.sasl_rejections.len() == 0
        &&& self.fault != Some(HarnessFault::Throttle) ==> self.throttles.len() == 0
        &&& self.fault != Some(HarnessFault::UnknownTaggedField) ==> self.tagged.len() == 0
    }

    /// The place of a partition in the routing topic, if it has one.
    pub open spec fn slot(self, partition: i32) -> Option<int> {
        if 0 <= partition < self.leaders.len() {
            Some(partition as int)
        } else {
            None
        }
    }

    /// How a fetch of the partition is answered at a broker.
    pub open spec fn fetch_error(self, partition: i32, node_id: i32) -> i16 {
        match self.slot(partition) {
            None => wire::UNKNOWN_TOPIC_OR_PARTITION,
            Some(slot) => if self.leaders[slot] == node_id {
                wire::NONE
            } else {
                wire::NOT_LEADER_OR_FOLLOWER
            },
        }
    }

    /// Whether a produce moves the leadership: only where the fault is
    /// armed, only at the leader, and only the first time.
    pub open spec fn moves(self, partition: i32, node_id: i32) -> bool {
        &&& self.fault == Some(HarnessFault::LeaderMove)
        &&& self.fetch_error(partition, node_id) == wire::NONE
        &&& !has_moved(self.events, partition)
    }

    /// How a produce to the partition is answered at a broker.
    pub open spec fn produce_error(self, partition: i32, node_id: i32) -> i16 {
        if self.moves(partition, node_id) {
            wire::NOT_LEADER_OR_FOLLOWER
        } else {
            self.fetch_error(partition, node_id)
        }
    }

    /// The cluster after that produce.
    pub open spec fn after_produce(self, partition: i32, node_id: i32) -> HarnessView {
        if self.moves(partition, node_id) {
            let to_node = ((node_id + 1) % (BROKER_COUNT as int)) as i32;
            HarnessView {
                leaders: self.leaders.update(partition as int, to_node),
                events: self.events.push(FaultEvent { partition, to_node }),
                ..self
            }
        } else {
            self
        }
    }
}

/// What an answer says of one partition, given its code.
pub trait Entry: Sized {
    spec fn of(partition: i32, error: i16) -> Self;

    fn entry(partition: i32, error: i16) -> (r: Self)
        ensures
            r == Self::of(partition, error),
    ;
}

/// A write is given the first offset where it was taken, and none where it
/// was not.
impl Entry for ProducedPartition {
    open spec fn of(partition: i32, error: i16) -> ProducedPartition {
        ProducedPartition {
            index: partition,
            error_code: error,
            base_offset: if error == wire::NONE { 0 } else { NO_OFFSET },
            log_append_time_ms: NO_TIME,
            log_start_offset: None,
        }
    }

    fn entry(partition: i32, error: i16) -> (r: ProducedPartition) {
        ProducedPartition {
            index: partition,
            error_code: error,
            base_offset: if error == wire::NONE { 0 } else { NO_OFFSET },
            log_append_time_ms: NO_TIME,
            log_start_offset: None,
        }
    }
}

/// Every log is empty, so every question about where it starts or ends has
/// the same answer.
impl Entry for ListedPartition {
    open spec fn of(partition: i32, error: i16) -> ListedPartition {
        ListedPartition {
            partition_index: partition,
            error_code: error,
            timestamp: NO_TIME,
            offset: 0,
            leader_epoch: NO_LEADER_EPOCH,
        }
    }

    fn entry(partition: i32, error: i16) -> (r: ListedPartition) {
        ListedPartition {
            partition_index: partition,
            error_code: error,
            timestamp: NO_TIME,
            offset: 0,
            leader_epoch: NO_LEADER_EPOCH,
        }
    }
}

/// What a fetch is told of a log: its record set is present, and empty.
#[derive(Debug, Clone, Copy)]
pub struct EmptyLog {
    pub partition_index: i32,
    pub error_code: i16,
    pub high_watermark: i64,
    pub last_stable_offset: i64,
    pub log_start_offset: i64,
    pub records: [u8; 0],
}

impl Entry for EmptyLog {
    open spec fn of(partition: i32, error: i16) -> EmptyLog {
        EmptyLog {
            partition_index: partition,
            error_code: error,
            high_watermark: 0,
            last_stable_offset: 0,
            log_start_offset: 0,
            records: [],
        }
    }

    fn entry(partition: i32, error: i16) -> (r: EmptyLog) {
        EmptyLog {
            partition_index: partition,
            error_code: error,
            high_watermark: 0,
            last_stable_offset: 0,
            log_start_offset: 0,
            records: [],
        }
    }
}

/// One topic of an answer, with an entry for each of its partitions.
#[derive(Debug)]
pub struct TopicReply<R> {
    pub topic: String,
    pub topic_id: TopicId,
    pub partitions: Vec<R>,
}

#[verifier::ext_equal]
pub struct TopicReplyView<R> {
    pub topic: Seq<char>,
    pub topic_id: TopicId,
    pub partitions: Seq<R>,
}

impl<R> View for TopicReply<R> {
    type V = TopicReplyView<R>;

    open spec fn view(&self) -> TopicReplyView<R> {
        TopicReplyView {
            topic: self.topic@,
            topic_id: self.topic_id,
            partitions: self.partitions@,
        }
    }
}

/// Several topics of an answer.
#[derive(Debug)]
pub struct Replies<R>(pub Vec<TopicReply<R>>);

impl<R> View for Replies<R> {
    type V = Seq<TopicReplyView<R>>;

    open spec fn view(&self) -> Seq<TopicReplyView<R>> {
        self.0@.map_values(|t: TopicReply<R>| t@)
    }
}

/// Where a topic stands in an answer, from the `i`th on.
pub open spec fn place_of<R>(replies: Seq<TopicReplyView<R>>, topic: Seq<char>, i: int) -> Option<
    int,
>
    decreases replies.len() - i,
{
    if !(0 <= i < replies.len()) {
        None
    } else if replies[i].topic == topic {
        Some(i)
    } else {
        place_of(replies, topic, i + 1)
    }
}

/// An answer with one more partition: under the topic's entry, which is
/// made if there is none. `id` is the id a new entry gets.
pub open spec fn with_partition<R>(
    replies: Seq<TopicReplyView<R>>,
    topic: Seq<char>,
    id: TopicId,
    entry: R,
) -> Seq<TopicReplyView<R>> {
    match place_of(replies, topic, 0) {
        Some(i) => replies.update(
            i,
            TopicReplyView {
                topic: replies[i].topic,
                topic_id: replies[i].topic_id,
                partitions: replies[i].partitions.push(entry),
            },
        ),
        None => replies.push(TopicReplyView { topic, topic_id: id, partitions: seq![entry] }),
    }
}

fn reply_id(topic: &str) -> (r: TopicId)
    ensures
        r == spec_topic_id(topic@),
{
    if same_text(topic, routing_topic()) {
        ROUTING_TOPIC_ID
    } else {
        NO_TOPIC_ID
    }
}

/// The id that stands for none.
pub const NO_TOPIC_ID: TopicId = [0, 0, 0, 0, 0, 0, 0, 0, 0, 0, 0, 0, 0, 0, 0, 0];

pub open spec fn spec_topic_id(topic: Seq<char>) -> TopicId {
    if topic == client::spec_routing_topic() {
        ROUTING_TOPIC_ID
    } else {
        NO_TOPIC_ID
    }
}

impl<R> Replies<R> {
    fn add(&mut self, topic: &String, entry: R)
        ensures
            final(self)@ == with_partition(old(self)@, topic@, spec_topic_id(topic@), entry),
    {
        let ghost before = self@;
        let mut i: usize = 0;
        while i < self.0.len()
            invariant
                i <= self.0@.len(),
                self@ == before,
                before == old(self)@,
                place_of(before, topic@, 0) == place_of(before, topic@, i as int),
            decreases self.0@.len() - i,
        {
            if same_text(self.0[i].topic.as_str(), topic.as_str()) {
                let ghost kept = self.0@[i as int]@;
                assert(before[i as int] == kept);
                let mut row = self.0.remove(i);
                row.partitions.push(entry);
                self.0.insert(i, row);
                assert(self@ =~= before.update(
                    i as int,
                    TopicReplyView {
                        topic: kept.topic,
                        topic_id: kept.topic_id,
                        partitions: kept.partitions.push(entry),
                    },
                ));
                return;
            }
            i = i + 1;
        }
        let partitions: Vec<R> = vec![entry];
        assert(partitions@ =~= seq![entry]);
        let row = TopicReply {
            topic: topic.clone(),
            topic_id: reply_id(topic.as_str()),
            partitions,
        };
        let ghost made = row@;
        self.0.push(row);
        assert(self@ =~= before.push(made));
    }
}

/// The answer to a produce, route by route, with the moves it stages.
pub open spec fn produce_replies(state: HarnessView, routes: Seq<RouteView>, node_id: i32) -> (
    HarnessView,
    Seq<TopicReplyView<ProducedPartition>>,
)
    decreases routes.len(),
{
    if routes.len() == 0 {
        (state, Seq::empty())
    } else {
        let (state, replies) = produce_replies(state, routes.drop_last(), node_id);
        let (topic, partition) = routes.last();
        if topic == client::spec_routing_topic() {
            (
                state.after_produce(partition, node_id),
                with_partition(
                    replies,
                    topic,
                    spec_topic_id(topic),
                    ProducedPartition::of(partition, state.produce_error(partition, node_id)),
                ),
            )
        } else {
            (
                state,
                with_partition(
                    replies,
                    topic,
                    spec_topic_id(topic),
                    ProducedPartition::of(partition, wire::UNKNOWN_TOPIC_OR_PARTITION),
                ),
            )
        }
    }
}

/// The answer to a fetch or an offset lookup, route by route.
pub open spec fn fetch_replies<R: Entry>(
    state: HarnessView,
    routes: Seq<RouteView>,
    node_id: i32,
) -> Seq<TopicReplyView<R>>
    decreases routes.len(),
{
    if routes.len() == 0 {
        Seq::empty()
    } else {
        let (topic, partition) = routes.last();
        with_partition(
            fetch_replies::<R>(state, routes.drop_last(), node_id),
            topic,
            spec_topic_id(topic),
            R::of(
                partition,
                if topic == client::spec_routing_topic() {
                    state.fetch_error(partition, node_id)
                } else {
                    wire::UNKNOWN_TOPIC_OR_PARTITION
                },
            ),
        )
    }
}

/// A partition of the routing topic: its leader is its only replica.
#[derive(Debug, Clone, Copy)]
pub struct LedPartition {
    pub partition_index: i32,
    pub leader_id: i32,
    pub replica_nodes: [i32; 1],
    pub isr_nodes: [i32; 1],
}

pub open spec fn spec_led(partition: i32, leader: i32) -> LedPartition {
    LedPartition {
        partition_index: partition,
        leader_id: leader,
        replica_nodes: [leader],
        isr_nodes: [leader],
    }
}

/// The partitions of the routing topic, in order.
pub open spec fn spec_led_partitions(leaders: Seq<i32>) -> Seq<LedPartition> {
    Seq::new(leaders.len(), |i: int| spec_led(spec_nth(i), leaders[i]))
}

/// A place in a list as a number on the wire, 0 where it does not fit.
pub open spec fn spec_nth(i: int) -> i32 {
    if i <= i32::MAX {
        i as i32
    } else {
        0
    }
}

fn nth(i: usize) -> (r: i32)
    ensures
        r == spec_nth(i as int),
{
    if i <= i32::MAX as usize {
        i as i32
    } else {
        0
    }
}

/// Where every broker of the impersonated cluster listens.
pub open spec fn spec_loopback() -> Seq<char> {
    "127.0.0.1"@
}

/// The brokers on the given ports, in order.
pub open spec fn spec_brokers(ports: Seq<u16>) -> Seq<BrokerReplyView> {
    Seq::new(
        ports.len(),
        |i: int|
            BrokerReplyView { node_id: spec_nth(i), host: spec_loopback(), port: ports[i] as i32 },
    )
}

fn broker_rows(ports: &Vec<u16>) -> (r: Vec<BrokerReply>)
    ensures
        r@.map_values(|row: BrokerReply| row@) == spec_brokers(ports@),
{
    let mut rows: Vec<BrokerReply> = Vec::new();
    let mut i: usize = 0;
    while i < ports.len()
        invariant
            i <= ports@.len(),
            rows@.len() == i,
            forall|j: int| 0 <= j < i ==> (#[trigger] rows@[j])@ == spec_brokers(ports@)[j],
        decreases ports@.len() - i,
    {
        rows.push(
            BrokerReply { node_id: nth(i), host: "127.0.0.1".to_string(), port: ports[i] as i32 },
        );
        i = i + 1;
    }
    assert(rows@.map_values(|row: BrokerReply| row@) =~= spec_brokers(ports@));
    rows
}

fn led_rows(leaders: &Vec<i32>) -> (r: Vec<LedPartition>)
    ensures
        r@ == spec_led_partitions(leaders@),
{
    let mut rows: Vec<LedPartition> = Vec::new();
    let mut i: usize = 0;
    while i < leaders.len()
        invariant
            i <= leaders@.len(),
            rows@ == spec_led_partitions(leaders@).take(i as int),
        decreases leaders@.len() - i,
    {
        let leader: i32 = leaders[i];
        let row = LedPartition {
            partition_index: nth(i),
            leader_id: leader,
            replica_nodes: [leader],
            isr_nodes: [leader],
        };
        assert(row.replica_nodes =~= spec_led(row.partition_index, leader).replica_nodes);
        rows.push(row);
        assert(rows@ =~= spec_led_partitions(leaders@).take(i + 1));
        i = i + 1;
    }
    assert(spec_led_partitions(leaders@).take(i as int) =~= spec_led_partitions(leaders@));
    rows
}

/// The request being answered.
#[derive(Debug, Clone, Copy)]
pub struct Asked<'a> {
    pub api_key: i16,
    pub api_version: i16,
    pub conn_id: usize,
    pub index: usize,
    pub routes: &'a Vec<Route>,
    pub sasl_mechanism: &'a Option<String>,
}

/// A tagged field that no schema defines.
#[derive(Debug)]
pub struct UnknownField {
    pub tag: u32,
    pub data: String,
}

#[verifier::ext_equal]
pub struct UnknownFieldView {
    pub tag: u32,
    pub data: Seq<char>,
}

impl View for UnknownField {
    type V = UnknownFieldView;

    open spec fn view(&self) -> UnknownFieldView {
        UnknownFieldView { tag: self.tag, data: self.data@ }
    }
}

/// The field an answer carries where it is staged.
pub open spec fn spec_tag(staged: bool) -> Option<UnknownFieldView> {
    if staged {
        Some(UnknownFieldView { tag: UNKNOWN_TAG, data: "from a newer broker"@ })
    } else {
        None
    }
}

/// An optional field in specifications.
pub open spec fn tag_view(tag: Option<UnknownField>) -> Option<UnknownFieldView> {
    match tag {
        Some(field) => Some(field@),
        None => None,
    }
}

fn tag(staged: bool) -> (r: Option<UnknownField>)
    ensures
        tag_view(r) == spec_tag(staged),
{
    if staged {
        Some(UnknownField { tag: UNKNOWN_TAG, data: "from a newer broker".to_string() })
    } else {
        None
    }
}

/// What Metadata says of the impersonated cluster and its one topic.
#[derive(Debug)]
pub struct MetadataAnswer {
    pub throttle_time_ms: i32,
    pub brokers: Vec<BrokerReply>,
    pub cluster_id: String,
    pub controller_id: i32,
    pub topic: String,
    pub topic_id: TopicId,
    pub partitions: Vec<LedPartition>,
    pub tagged: Option<UnknownField>,
}

#[verifier::ext_equal]
pub struct MetadataAnswerView {
    pub throttle_time_ms: i32,
    pub brokers: Seq<BrokerReplyView>,
    pub cluster_id: Seq<char>,
    pub controller_id: i32,
    pub topic: Seq<char>,
    pub topic_id: TopicId,
    pub partitions: Seq<LedPartition>,
    pub tagged: Option<UnknownFieldView>,
}

impl View for MetadataAnswer {
    type V = MetadataAnswerView;

    open spec fn view(&self) -> MetadataAnswerView {
        MetadataAnswerView {
            throttle_time_ms: self.throttle_time_ms,
            brokers: self.brokers@.map_values(|row: BrokerReply| row@),
            cluster_id: self.cluster_id@,
            controller_id: self.controller_id,
            topic: self.topic@,
            topic_id: self.topic_id,
            partitions: self.partitions@,
            tagged: tag_view(self.tagged),
        }
    }
}

/// What goes back.
#[derive(Debug)]
pub enum Body {
    ApiVersions { error: i16, api_keys: Vec<ApiVersion>, tagged: Option<UnknownField> },
    Metadata(MetadataAnswer),
    SaslHandshake { error: i16, mechanisms: Vec<String> },
    /// An answer that is shaped like success; a refusal says so in its bytes.
    SaslAuthenticate { error: i16, auth: String },
    InitProducerId { error: i16, producer_id: i64, producer_epoch: i16 },
    Produce(Replies<ProducedPartition>),
    Fetch(Replies<EmptyLog>),
    ListOffsets(Replies<ListedPartition>),
}

#[verifier::ext_equal]
pub enum BodyView {
    ApiVersions { error: i16, api_keys: Seq<ApiVersion>, tagged: Option<UnknownFieldView> },
    Metadata(MetadataAnswerView),
    SaslHandshake { error: i16, mechanisms: Seq<Seq<char>> },
    SaslAuthenticate { error: i16, auth: Seq<char> },
    InitProducerId { error: i16, producer_id: i64, producer_epoch: i16 },
    Produce(Seq<TopicReplyView<ProducedPartition>>),
    Fetch(Seq<TopicReplyView<EmptyLog>>),
    ListOffsets(Seq<TopicReplyView<ListedPartition>>),
}

impl View for Body {
    type V = BodyView;

    open spec fn view(&self) -> BodyView {
        match *self {
            Body::ApiVersions { error, api_keys, tagged } =>
                BodyView::ApiVersions { error, api_keys: api_keys@, tagged: tag_view(tagged) },
            Body::Metadata(answer) => BodyView::Metadata(answer@),
            Body::SaslHandshake { error, mechanisms } =>
                BodyView::SaslHandshake { error, mechanisms: text::views(mechanisms@) },
            Body::SaslAuthenticate { error, auth } =>
                BodyView::SaslAuthenticate { error, auth: auth@ },
            Body::InitProducerId { error, producer_id, producer_epoch } =>
                BodyView::InitProducerId { error, producer_id, producer_epoch },
            Body::Produce(t) => BodyView::Produce(t@),
            Body::Fetch(t) => BodyView::Fetch(t@),
            Body::ListOffsets(t) => BodyView::ListOffsets(t@),
        }
    }
}

/// What a refused token is answered with.
pub open spec fn spec_refusal() -> Seq<char> {
    "{\"status\":\"invalid_token\"}"@
}

/// An answer: its body, the version it is encoded at, and whether its header
/// is the plain one whatever that version's usually is.
#[derive(Debug)]
pub struct ReplyOf<B> {
    pub version: i16,
    pub plain_header: bool,
    pub body: B,
}

pub type Reply = ReplyOf<Body>;

/// What a request gets, in specifications.
pub open spec fn reply_view(r: Option<Reply>) -> Option<ReplyOf<BodyView>> {
    match r {
        Some(reply) => Some(
            ReplyOf {
                version: reply.version,
                plain_header: reply.plain_header,
                body: reply.body@,
            },
        ),
        None => None,
    }
}

pub open spec fn spec_clamp(version: i16, range: Versions) -> i16 {
    if version < range.min {
        range.min
    } else if version > range.max {
        range.max
    } else {
        version
    }
}

fn clamp(version: i16, range: Versions) -> (r: i16)
    ensures
        r == spec_clamp(version, range),
{
    if version < range.min {
        range.min
    } else if version > range.max {
        range.max
    } else {
        version
    }
}

/// What a request gets, and the cluster after it.
pub open spec fn spec_respond(
    state: HarnessView,
    schema: HarnessSchema,
    api_key: i16,
    api_version: i16,
    conn_id: usize,
    index: usize,
    routes: Seq<RouteView>,
    mechanism: Option<Seq<char>>,
    node_id: i32,
    now_ms: u64,
) -> (HarnessView, Option<ReplyOf<BodyView>>) {
    if api_key == API_VERSIONS {
        if api_version > schema.api_versions.max {
            (
                state,
                Some(
                    ReplyOf {
                        version: 0,
                        plain_header: true,
                        body: BodyView::ApiVersions {
                            error: wire::UNSUPPORTED_VERSION,
                            api_keys: client::spec_advertised(schema),
                            tagged: spec_tag(false),
                        },
                    },
                ),
            )
        } else {
            let tagged = state.fault == Some(HarnessFault::UnknownTaggedField) && api_version
                >= API_VERSIONS_FLEXIBLE_MIN;
            (
                if tagged {
                    HarnessView { tagged: state.tagged.push((conn_id, index)), ..state }
                } else {
                    state
                },
                Some(
                    ReplyOf {
                        version: api_version,
                        plain_header: true,
                        body: BodyView::ApiVersions {
                            error: wire::NONE,
                            api_keys: client::spec_advertised(schema),
                            tagged: spec_tag(tagged),
                        },
                    },
                ),
            )
        }
    } else if api_key == METADATA {
        let version = spec_clamp(api_version, schema.metadata);
        let tagged = state.fault == Some(HarnessFault::UnknownTaggedField) && version
            >= METADATA_FLEXIBLE_MIN;
        let throttled = state.fault == Some(HarnessFault::Throttle) && version
            >= METADATA_THROTTLE_MIN;
        (
            HarnessView {
                tagged: if tagged {
                    state.tagged.push((conn_id, index))
                } else {
                    state.tagged
                },
                throttles: if throttled {
                    state.throttles.push((conn_id, index, now_ms))
                } else {
                    state.throttles
                },
                ..state
            },
            Some(
                ReplyOf {
                    version,
                    plain_header: false,
                    body: BodyView::Metadata(
                        MetadataAnswerView {
                            throttle_time_ms: if throttled { THROTTLE_MS } else { 0 },
                            brokers: spec_brokers(state.ports),
                            cluster_id: "odradek-harness"@,
                            controller_id: 0,
                            topic: client::spec_routing_topic(),
                            topic_id: ROUTING_TOPIC_ID,
                            partitions: spec_led_partitions(state.leaders),
                            tagged: spec_tag(tagged),
                        },
                    ),
                },
            ),
        )
    } else if api_key == SASL_HANDSHAKE {
        let agreed = mechanism == Some(client::spec_offered_mechanism());
        (
            if agreed {
                HarnessView { negotiated: state.negotiated.insert(conn_id), ..state }
            } else {
                state
            },
            Some(
                ReplyOf {
                    version: spec_clamp(api_version, schema.sasl_handshake),
                    plain_header: false,
                    body: BodyView::SaslHandshake {
                        error: if agreed {
                            wire::NONE
                        } else {
                            wire::UNSUPPORTED_SASL_MECHANISM
                        },
                        mechanisms: seq![client::spec_offered_mechanism()],
                    },
                },
            ),
        )
    } else if api_key == SASL_AUTHENTICATE {
        let refused = state.fault == Some(HarnessFault::RejectSaslToken)
            && state.negotiated.contains(conn_id) && !was_refused(state.sasl_rejections, conn_id);
        (
            if refused {
                HarnessView {
                    sasl_rejections: state.sasl_rejections.push((conn_id, index)),
                    ..state
                }
            } else {
                state
            },
            Some(
                ReplyOf {
                    version: spec_clamp(api_version, schema.sasl_authenticate),
                    plain_header: false,
                    body: BodyView::SaslAuthenticate {
                        error: wire::NONE,
                        auth: if refused {
                            spec_refusal()
                        } else {
                            Seq::empty()
                        },
                    },
                },
            ),
        )
    } else if api_key == INIT_PRODUCER_ID {
        (
            state,
            Some(
                ReplyOf {
                    version: spec_clamp(api_version, schema.init_producer_id),
                    plain_header: false,
                    body: BodyView::InitProducerId {
                        error: wire::NONE,
                        producer_id: HARNESS_PRODUCER,
                        producer_epoch: 0,
                    },
                },
            ),
        )
    } else if api_key == PRODUCE {
        let (after, replies) = produce_replies(state, routes, node_id);
        (
            after,
            Some(
                ReplyOf {
                    version: spec_clamp(api_version, schema.produce),
                    plain_header: false,
                    body: BodyView::Produce(replies),
                },
            ),
        )
    } else if api_key == LIST_OFFSETS {
        (
            state,
            Some(
                ReplyOf {
                    version: spec_clamp(api_version, schema.list_offsets),
                    plain_header: false,
                    body: BodyView::ListOffsets(fetch_replies(state, routes, node_id)),
                },
            ),
        )
    } else if api_key == FETCH {
        (
            state,
            Some(
                ReplyOf {
                    version: spec_clamp(api_version, schema.fetch),
                    plain_header: false,
                    body: BodyView::Fetch(fetch_replies(state, routes, node_id)),
                },
            ),
        )
    } else {
        (state, None)
    }
}

impl Harness {
    /// A cluster on the given ports, with partition `i` led by broker `i`.
    pub fn new(ports: Vec<u16>, fault: Option<HarnessFault>) -> (r: Harness)
        ensures
            r@.wf(),
            r@.ports == ports@,
            r@.fault == fault,
            r@.leaders == seq![0i32, 1, 2],
            r@.events.len() == 0,
            r@.sasl_rejections.len() == 0,
            r@.throttles.len() == 0,
            r@.tagged.len() == 0,
            r@.negotiated == Set::<usize>::empty(),
    {
        let leaders: Vec<i32> = vec![0, 1, 2];
        assert(leaders@ =~= seq![0i32, 1, 2]);
        let r = Harness {
            ports,
            fault,
            leaders,
            events: Vec::new(),
            sasl_rejections: Vec::new(),
            throttles: Vec::new(),
            tagged: Vec::new(),
            negotiated: Vec::new(),
        };
        assert(r@.negotiated =~= Set::<usize>::empty());
        r
    }

    /// Whether a staged fault is armed.
    fn armed(&self, fault: HarnessFault) -> (r: bool)
        ensures
            r == (self.fault == Some(fault)),
    {
        match self.fault {
            Some(f) => f == fault,
            None => false,
        }
    }

    fn moved(&self, partition: i32) -> (r: bool)
        ensures
            r == has_moved(self.events@, partition),
    {
        let mut i: usize = 0;
        while i < self.events.len()
            invariant
                i <= self.events@.len(),
                forall|j: int| 0 <= j < i ==> #[trigger] self.events@[j].partition != partition,
            decreases self.events@.len() - i,
        {
            if self.events[i].partition == partition {
                assert(self.events@[i as int].partition == partition);
                return true;
            }
            i = i + 1;
        }
        false
    }

    fn refused(&self, conn_id: usize) -> (r: bool)
        ensures
            r == was_refused(self.sasl_rejections@, conn_id),
    {
        let mut i: usize = 0;
        while i < self.sasl_rejections.len()
            invariant
                i <= self.sasl_rejections@.len(),
                forall|j: int| 0 <= j < i ==> #[trigger] self.sasl_rejections@[j].0 != conn_id,
            decreases self.sasl_rejections@.len() - i,
        {
            if self.sasl_rejections[i].0 == conn_id {
                assert(self.sasl_rejections@[i as int].0 == conn_id);
                return true;
            }
            i = i + 1;
        }
        false
    }

    fn has_negotiated(&self, conn_id: usize) -> (r: bool)
        ensures
            r == self@.negotiated.contains(conn_id),
    {
        let mut i: usize = 0;
        while i < self.negotiated.len()
            invariant
                i <= self.negotiated@.len(),
                forall|j: int| 0 <= j < i ==> self.negotiated@[j] != conn_id,
            decreases self.negotiated@.len() - i,
        {
            if self.negotiated[i] == conn_id {
                assert(self.negotiated@.contains(conn_id));
                return true;
            }
            i = i + 1;
        }
        false
    }

    /// How a fetch of the partition is answered at a broker: judged against
    /// current leadership, never moving it.
    pub fn fetch_error(&self, partition: i32, node_id: i32) -> (r: i16)
        ensures
            r == self@.fetch_error(partition, node_id),
    {
        if partition < 0 || partition as usize >= self.leaders.len() {
            return wire::UNKNOWN_TOPIC_OR_PARTITION;
        }
        if self.leaders[partition as usize] == node_id {
            wire::NONE
        } else {
            wire::NOT_LEADER_OR_FOLLOWER
        }
    }

    /// How a produce to the partition is answered at a broker, moving the
    /// leadership where that is armed.
    pub fn produce_error(&mut self, partition: i32, node_id: i32) -> (r: i16)
        requires
            old(self)@.wf(),
        ensures
            r == old(self)@.produce_error(partition, node_id),
            final(self)@ == old(self)@.after_produce(partition, node_id),
            final(self)@.wf(),
    {
        let error: i16 = self.fetch_error(partition, node_id);
        if error == wire::NONE && self.armed(HarnessFault::LeaderMove) && !self.moved(partition) {
            let to_node: i32 = (node_id + 1) % BROKER_COUNT;
            let ghost before = self@;
            self.leaders.set(partition as usize, to_node);
            self.events.push(FaultEvent { partition, to_node });
            assert(self@ =~= before.after_produce(partition, node_id));
            assert forall|i: int, j: int| 0 <= i < j < self@.events.len() implies (
            #[trigger] self@.events[i]).partition != (#[trigger] self@.events[j]).partition by {
                if j == before.events.len() {
                    assert(before.events[i].partition != partition);
                }
            }
            wire::NOT_LEADER_OR_FOLLOWER
        } else {
            error
        }
    }

    fn produced(&mut self, routes: &Vec<Route>, node_id: i32) -> (r: Replies<ProducedPartition>)
        requires
            old(self)@.wf(),
        ensures
            (final(self)@, r@) == produce_replies(
                old(self)@,
                client::route_views(routes@),
                node_id,
            ),
            final(self)@.wf(),
    {
        let ghost start = self@;
        let ghost all = client::route_views(routes@);
        let mut replies: Replies<ProducedPartition> = Replies(Vec::new());
        assert(replies@ =~= Seq::empty());
        assert(all.take(0) =~= Seq::empty());
        let mut i: usize = 0;
        while i < routes.len()
            invariant
                i <= routes@.len(),
                all == client::route_views(routes@),
                self@.wf(),
                (self@, replies@) == produce_replies(start, all.take(i as int), node_id),
            decreases routes@.len() - i,
        {
            assert(all.take(i + 1).drop_last() =~= all.take(i as int));
            let route = &routes[i];
            let error: i16 = if same_text(route.topic.as_str(), routing_topic()) {
                self.produce_error(route.partition, node_id)
            } else {
                wire::UNKNOWN_TOPIC_OR_PARTITION
            };
            replies.add(&route.topic, ProducedPartition::entry(route.partition, error));
            i = i + 1;
        }
        assert(all.take(i as int) =~= all);
        replies
    }

    fn fetched<R: Entry>(&self, routes: &Vec<Route>, node_id: i32) -> (r: Replies<R>)
        ensures
            r@ == fetch_replies::<R>(self@, client::route_views(routes@), node_id),
    {
        let ghost all = client::route_views(routes@);
        let mut replies: Replies<R> = Replies(Vec::new());
        assert(replies@ =~= Seq::empty());
        assert(all.take(0) =~= Seq::empty());
        let mut i: usize = 0;
        while i < routes.len()
            invariant
                i <= routes@.len(),
                all == client::route_views(routes@),
                replies@ == fetch_replies::<R>(self@, all.take(i as int), node_id),
            decreases routes@.len() - i,
        {
            assert(all.take(i + 1).drop_last() =~= all.take(i as int));
            let route = &routes[i];
            let error: i16 = if same_text(route.topic.as_str(), routing_topic()) {
                self.fetch_error(route.partition, node_id)
            } else {
                wire::UNKNOWN_TOPIC_OR_PARTITION
            };
            replies.add(&route.topic, R::entry(route.partition, error));
            i = i + 1;
        }
        assert(all.take(i as int) =~= all);
        replies
    }

    fn answer_metadata(&mut self, asked: Asked, schema: &HarnessSchema, now_ms: u64) -> (r: Reply)
        requires
            old(self)@.wf(),
            asked.api_key == METADATA,
        ensures
            (final(self)@, reply_view(Some(r))) == spec_respond(
                old(self)@,
                *schema,
                METADATA,
                asked.api_version,
                asked.conn_id,
                asked.index,
                client::route_views(asked.routes@),
                wire::opt_view(*asked.sasl_mechanism),
                0,
                now_ms,
            ),
            final(self)@.wf(),
    {
        let version: i16 = clamp(asked.api_version, schema.metadata);
        let tagged = self.armed(HarnessFault::UnknownTaggedField) && version
            >= METADATA_FLEXIBLE_MIN;
        if tagged {
            self.tagged.push((asked.conn_id, asked.index));
        }
        let throttled = self.armed(HarnessFault::Throttle) && version >= METADATA_THROTTLE_MIN;
        if throttled {
            self.throttles.push((asked.conn_id, asked.index, now_ms));
        }
        ReplyOf {
            version,
            plain_header: false,
            body: Body::Metadata(
                MetadataAnswer {
                    throttle_time_ms: if throttled { THROTTLE_MS } else { 0 },
                    brokers: broker_rows(&self.ports),
                    cluster_id: "odradek-harness".to_string(),
                    controller_id: 0,
                    topic: routing_topic().to_string(),
                    topic_id: ROUTING_TOPIC_ID,
                    partitions: led_rows(&self.leaders),
                    tagged: tag(tagged),
                },
            ),
        }
    }

    /// Answers one request at broker `node_id`, or stays silent where there
    /// is nothing sensible to say.
    pub fn respond(&mut self, asked: Asked, schema: &HarnessSchema, node_id: i32, now_ms: u64) -> (r:
        Option<Reply>)
        requires
            old(self)@.wf(),
        ensures
            (final(self)@, reply_view(r)) == spec_respond(
                old(self)@,
                *schema,
                asked.api_key,
                asked.api_version,
                asked.conn_id,
                asked.index,
                client::route_views(asked.routes@),
                wire::opt_view(*asked.sasl_mechanism),
                node_id,
                now_ms,
            ),
            final(self)@.wf(),
    {
        let ghost before = self@;
        if asked.api_key == API_VERSIONS {
            if asked.api_version > schema.api_versions.max {
                return Some(
                    ReplyOf {
                        version: 0,
                        plain_header: true,
                        body: Body::ApiVersions {
                            error: wire::UNSUPPORTED_VERSION,
                            api_keys: advertised(schema),
                            tagged: tag(false),
                        },
                    },
                );
            }
            let tagged = self.armed(HarnessFault::UnknownTaggedField) && asked.api_version
                >= API_VERSIONS_FLEXIBLE_MIN;
            if tagged {
                self.tagged.push((asked.conn_id, asked.index));
            }
            return Some(
                ReplyOf {
                    version: asked.api_version,
                    plain_header: true,
                    body: Body::ApiVersions {
                        error: wire::NONE,
                        api_keys: advertised(schema),
                        tagged: tag(tagged),
                    },
                },
            );
        }
        if asked.api_key == METADATA {
            return Some(self.answer_metadata(asked, schema, now_ms));
        }
        if asked.api_key == SASL_HANDSHAKE {
            let agreed = match asked.sasl_mechanism {
                Some(mechanism) => same_text(mechanism.as_str(), offered_mechanism()),
                None => false,
            };
            if agreed {
                let ghost held = self.negotiated@;
                self.negotiated.push(asked.conn_id);
                proof {
                    assert forall|c: usize| self.negotiated@.to_set().contains(c) == (held.to_set()
                        .insert(asked.conn_id)).contains(c) by {
                        if held.contains(c) {
                            let k = choose|k: int| 0 <= k < held.len() && held[k] == c;
                            assert(self.negotiated@[k] == c);
                        }
                        if c == asked.conn_id {
                            assert(self.negotiated@[held.len() as int] == c);
                        }
                        if self.negotiated@.contains(c) && c != asked.conn_id {
                            let k = choose|k: int|
                                0 <= k < self.negotiated@.len() && self.negotiated@[k] == c;
                            assert(held[k] == c);
                        }
                    }
                    assert(self@.negotiated =~= before.negotiated.insert(asked.conn_id));
                }
            }
            let mechanisms: Vec<String> = vec![offered_mechanism().to_string()];
            assert(text::views(mechanisms@) =~= seq![client::spec_offered_mechanism()]);
            return Some(
                ReplyOf {
                    version: clamp(asked.api_version, schema.sasl_handshake),
                    plain_header: false,
                    body: Body::SaslHandshake {
                        error: if agreed {
                            wire::NONE
                        } else {
                            wire::UNSUPPORTED_SASL_MECHANISM
                        },
                        mechanisms,
                    },
                },
            );
        }
        if asked.api_key == SASL_AUTHENTICATE {
            let refused = self.armed(HarnessFault::RejectSaslToken) && self.has_negotiated(
                asked.conn_id,
            ) && !self.refused(asked.conn_id);
            if refused {
                self.sasl_rejections.push((asked.conn_id, asked.index));
                assert forall|i: int, j: int| 0 <= i < j < self@.sasl_rejections.len() implies (
                #[trigger] self@.sasl_rejections[i]).0 != (#[trigger] self@.sasl_rejections[j]).0 by {
                    if j == before.sasl_rejections.len() {
                        assert(before.sasl_rejections[i].0 != asked.conn_id);
                    }
                }
            }
            return Some(
                ReplyOf {
                    version: clamp(asked.api_version, schema.sasl_authenticate),
                    plain_header: false,
                    body: Body::SaslAuthenticate {
                        error: wire::NONE,
                        auth: if refused {
                            "{\"status\":\"invalid_token\"}".to_string()
                        } else {
                            String::new()
                        },
                    },
                },
            );
        }
        if asked.api_key == INIT_PRODUCER_ID {
            return Some(
                ReplyOf {
                    version: clamp(asked.api_version, schema.init_producer_id),
                    plain_header: false,
                    body: Body::InitProducerId {
                        error: wire::NONE,
                        producer_id: HARNESS_PRODUCER,
                        producer_epoch: 0,
                    },
                },
            );
        }
        if asked.api_key == PRODUCE {
            let replies = self.produced(asked.routes, node_id);
            return Some(
                ReplyOf {
                    version: clamp(asked.api_version, schema.produce),
                    plain_header: false,
                    body: Body::Produce(replies),
                },
            );
        }
        if asked.api_key == LIST_OFFSETS {
            return Some(
                ReplyOf {
                    version: clamp(asked.api_version, schema.list_offsets),
                    plain_header: false,
                    body: Body::ListOffsets(self.fetched(asked.routes, node_id)),
                },
            );
        }
        if asked.api_key == FETCH {
            return Some(
                ReplyOf {
                    version: clamp(asked.api_version, schema.fetch),
                    plain_header: false,
                    body: Body::Fetch(self.fetched(asked.routes, node_id)),
                },
            );
        }
        None
    }

    /// The session's record, once it is over.
    pub fn into_session(self, observations: Vec<Observation>) -> (r: Session)
        ensures
            r.observations == observations,
            r.fault == self.fault,
            r.events == self.events,
            r.sasl_rejections == self.sasl_rejections,
            r.throttles == self.throttles,
            r.tagged == self.tagged,
    {
        Session {
            observations,
            fault: self.fault,
            events: self.events,
            sasl_rejections: self.sasl_rejections,
            throttles: self.throttles,
            tagged: self.tagged,
        }
    }
}

/// A partition's leadership is moved at most once: after a move, a produce
/// at the new leader is acknowledged and moves nothing.
pub proof fn law_leader_moves_once(state: HarnessView, partition: i32, node_id: i32, other: i32)
    requires
        state.wf(),
        state.moves(partition, node_id),
    ensures
        state.produce_error(partition, node_id) == wire::NOT_LEADER_OR_FOLLOWER,
        ({
            let after = state.after_produce(partition, node_id);
            let to_node = ((node_id + 1) % (BROKER_COUNT as int)) as i32;
            &&& to_node != node_id
            &&& after.fetch_error(partition, to_node) == wire::NONE
            &&& after.produce_error(partition, to_node) == wire::NONE
            &&& after.after_produce(partition, other) == after
        }),
{
    let after = state.after_produce(partition, node_id);
    assert(after.events[state.events.len() as int].partition == partition);
    assert(has_moved(after.events, partition));
}

/// What Metadata advertises is what produce and fetch are held to: the broker
/// it names as a partition's leader serves a fetch there, no other broker
/// does, and each leader it names is one of the brokers it lists.
pub proof fn law_advertised_leader_serves(
    state: HarnessView,
    schema: HarnessSchema,
    api_version: i16,
    conn_id: usize,
    index: usize,
    node_id: i32,
    now_ms: u64,
    slot: int,
)
    requires
        state.wf(),
        state.ports.len() == BROKER_COUNT,
        0 <= slot < BROKER_COUNT,
    ensures
        ({
            let (after, reply) = spec_respond(
                state,
                schema,
                METADATA,
                api_version,
                conn_id,
                index,
                Seq::empty(),
                None,
                node_id,
                now_ms,
            );
            &&& reply matches Some(reply)
            &&& reply.body matches BodyView::Metadata(answer)
            &&& answer.partitions.len() == BROKER_COUNT
            &&& answer.partitions[slot].partition_index == slot
            &&& forall|other: i32|
                #[trigger] after.fetch_error(slot as i32, other) == wire::NONE <==> other
                    == answer.partitions[slot].leader_id
            &&& exists|i: int|
                0 <= i < answer.brokers.len() && #[trigger] answer.brokers[i].node_id
                    == answer.partitions[slot].leader_id
        }),
{
    let leader = state.leaders[slot];
    let rows = spec_led_partitions(state.leaders);
    assert(rows[slot] == spec_led(slot as i32, leader));
    let brokers = spec_brokers(state.ports);
    assert(brokers[leader as int].node_id == leader);
    let (after, reply) = spec_respond(
        state,
        schema,
        METADATA,
        api_version,
        conn_id,
        index,
        Seq::empty(),
        None,
        node_id,
        now_ms,
    );
    assert(after.leaders == state.leaders);
    let answer = reply->0.body->Metadata_0;
    assert(answer.partitions == rows && answer.brokers == brokers);
}

/// Without a staged fault a produce is acknowledged exactly at the broker
/// that leads the partition, and nothing moves.
pub proof fn law_unarmed_produce_is_fetch(state: HarnessView, partition: i32, node_id: i32)
    requires
        state.fault != Some(HarnessFault::LeaderMove),
    ensures
        state.produce_error(partition, node_id) == state.fetch_error(partition, node_id),
        state.after_produce(partition, node_id) == state,
        state.produce_error(partition, node_id) == wire::NONE <==> (0 <= partition
            < state.leaders.len() && state.leaders[partition as int] == node_id),
{
}

} // verus!

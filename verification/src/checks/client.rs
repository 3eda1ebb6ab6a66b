//! Checks that run against a client under test: the suite acts as server.
//!
//! The harness impersonates a small cluster: the bootstrap listener and two
//! more, presented in Metadata as brokers 0 to 2. One topic spans three
//! partitions, partition `i` led by broker `i`, so that leader routing can
//! be observed. Every broker answers just enough to keep a real client
//! talking, and every request is recorded; the checks are judged over the
//! recorded session.

use vstd::prelude::*;
use vstd::string::*;

use crate::checks::ctx::Wait;
use crate::text;
use crate::text::{line, same_bytes};
use crate::wire;
use crate::wire::{
    ApiVersion, TopicId, API_VERSIONS, FETCH, INIT_PRODUCER_ID, LIST_OFFSETS, METADATA, PRODUCE,
    SASL_AUTHENTICATE, SASL_HANDSHAKE,
};

verus! {

/// How many brokers the harness impersonates.
pub const BROKER_COUNT: i32 = 3;
/// The pause a throttled answer asks for.
pub const THROTTLE_MS: i32 = 400;
/// Metadata carries a throttle from this version on.
pub const METADATA_THROTTLE_MIN: i16 = 3;
/// Metadata has a tagged-field section from this version on.
pub const METADATA_FLEXIBLE_MIN: i16 = 9;
/// The first ApiVersions answer whose body is flexible.
pub const API_VERSIONS_FLEXIBLE_MIN: i16 = 3;
/// A tag far above anything that is defined.
pub const UNKNOWN_TAG: u32 = 60_000;
/// The id handed to every producer.
pub const HARNESS_PRODUCER: i64 = 1000;

pub open spec fn spec_routing_topic() -> Seq<char> {
    "odradek-routing"@
}

/// The topic the harness advertises: one partition per broker.
pub fn routing_topic() -> (r: &'static str)
    ensures
        r@ == spec_routing_topic(),
{
    "odradek-routing"
}

/// Its id: the bytes of `odradek-routing!`.
pub const ROUTING_TOPIC_ID: TopicId = [
    111, 100, 114, 97, 100, 101, 107, 45, 114, 111, 117, 116, 105, 110, 103, 33,
];

pub open spec fn spec_offered_mechanism() -> Seq<char> {
    "OAUTHBEARER"@
}

/// The one mechanism the harness knows how to be wrong in: no other has a
/// refusal that is shaped like success.
pub fn offered_mechanism() -> (r: &'static str)
    ensures
        r@ == spec_offered_mechanism(),
{
    "OAUTHBEARER"
}

/// A deliberate misbehavior the harness can stage.
#[derive(Debug, Clone, Copy, PartialEq, Eq, Structural)]
pub enum HarnessFault {
    /// The first produce for each partition of the routing topic is answered
    /// NOT_LEADER_OR_FOLLOWER, and leadership moves to the next broker.
    LeaderMove,
    /// Whatever token arrives is refused, in an answer shaped like success.
    RejectSaslToken,
    /// Answers carry a tagged field that nothing defines.
    UnknownTaggedField,
    /// Answers ask for a pause.
    Throttle,
}

/// Limits for one observation session.
#[derive(Debug, Clone, Copy)]
pub struct ObserveConfig {
    /// Stop after this many requests.
    pub max_requests: usize,
    /// Stop when every connection goes quiet for this long.
    pub idle_timeout: Wait,
    /// How long to wait for the client's first connection.
    pub accept_timeout: Wait,
    /// Optional staged misbehavior.
    pub fault: Option<HarnessFault>,
}

impl Default for ObserveConfig {
    fn default() -> (r: ObserveConfig)
        ensures
            r.max_requests == 32,
            r.idle_timeout.nanos == 3_000_000_000,
            r.accept_timeout.nanos == 60_000_000_000,
            r.fault is None,
    {
        ObserveConfig {
            max_requests: 32,
            idle_timeout: Wait { nanos: 3_000_000_000 },
            accept_timeout: Wait { nanos: 60_000_000_000 },
            fault: None,
        }
    }
}

/// A (topic, partition) pair that a request addressed.
#[derive(Debug)]
pub struct Route {
    pub topic: String,
    pub partition: i32,
}

/// A request header, as far as it is looked at.
#[derive(Debug, Clone, Copy, PartialEq, Eq, Structural)]
pub struct SeenHeader {
    pub api_key: i16,
    pub api_version: i16,
    pub correlation_id: i32,
}

/// What the harness saw in one request frame.
#[derive(Debug)]
pub struct Observation {
    /// Which impersonated broker received the frame.
    pub node_id: i32,
    /// Which connection it came on.
    pub conn_id: usize,
    /// Its position within the connection.
    pub index: usize,
    /// When it arrived, in milliseconds since the session began.
    pub at_ms: u64,
    pub api_key: i16,
    pub api_version: i16,
    /// `None` when no header could be recovered.
    pub header: Option<SeenHeader>,
    pub header_error: Option<String>,
    pub body_error: Option<String>,
    /// Body checking does not apply: the api is unknown, or an ApiVersions
    /// probe is above the newest version, which a client may send.
    pub body_exempt: bool,
    pub routes: Vec<Route>,
    /// The mechanism a SaslHandshake asked for, if this is one.
    pub sasl_mechanism: Option<String>,
}

/// A leader move that fired.
#[derive(Debug, Clone, Copy, PartialEq, Eq, Structural)]
pub struct FaultEvent {
    pub partition: i32,
    pub to_node: i32,
}

/// One recorded session: everything the client-side checks judge.
#[derive(Debug)]
pub struct Session {
    pub observations: Vec<Observation>,
    pub fault: Option<HarnessFault>,
    pub events: Vec<FaultEvent>,
    /// `(connection, request index)` where a SASL token was refused.
    pub sasl_rejections: Vec<(usize, usize)>,
    /// `(connection, request index, when the answer went out)` for every
    /// throttled answer.
    pub throttles: Vec<(usize, usize, u64)>,
    /// `(connection, request index)` for every answer with an unknown tagged
    /// field.
    pub tagged: Vec<(usize, usize)>,
}

/// Hands out connection numbers and says when the last live connection
/// closed: a client that has hung up has nothing left to say.
#[derive(Debug)]
pub struct ConnTracker {
    pub next_id: usize,
    pub live: usize,
}

impl ConnTracker {
    pub fn new() -> (r: ConnTracker)
        ensures
            r.next_id == 0,
            r.live == 0,
    {
        ConnTracker { next_id: 0, live: 0 }
    }

    /// Registers a connection and gives its number.
    pub fn open(&mut self) -> (r: usize)
        requires
            old(self).next_id < usize::MAX,
            old(self).live < usize::MAX,
        ensures
            r == old(self).next_id,
            final(self).next_id == old(self).next_id + 1,
            final(self).live == old(self).live + 1,
    {
        let id: usize = self.next_id;
        self.next_id = self.next_id + 1;
        self.live = self.live + 1;
        id
    }

    /// Retires a connection; says whether it was the last one live.
    pub fn close(&mut self) -> (r: bool)
        requires
            old(self).live > 0,
        ensures
            r == (old(self).live == 1),
            final(self).live == old(self).live - 1,
            final(self).next_id == old(self).next_id,
    {
        self.live = self.live - 1;
        self.live == 0
    }
}

// ---- what a frame says ----------------------------------------------

/// The versions the harness needs to know of the codec.
#[derive(Debug, Clone, Copy)]
pub struct HarnessSchema {
    pub api_versions: wire::Versions,
    pub produce: wire::Versions,
    pub init_producer_id: wire::Versions,
    pub sasl_handshake: wire::Versions,
    pub sasl_authenticate: wire::Versions,
    pub fetch: wire::Versions,
    pub metadata: wire::Versions,
    pub list_offsets: wire::Versions,
}

pub open spec fn api_row(api_key: i16, versions: wire::Versions) -> ApiVersion {
    ApiVersion { api_key, min_version: versions.min, max_version: versions.max }
}

/// What the harness advertises: exactly the apis it can read and answer.
pub open spec fn spec_advertised(schema: HarnessSchema) -> Seq<ApiVersion> {
    seq![
        api_row(API_VERSIONS, schema.api_versions),
        api_row(PRODUCE, schema.produce),
        api_row(INIT_PRODUCER_ID, schema.init_producer_id),
        api_row(SASL_HANDSHAKE, schema.sasl_handshake),
        api_row(SASL_AUTHENTICATE, schema.sasl_authenticate),
        api_row(FETCH, schema.fetch),
        api_row(METADATA, schema.metadata),
        api_row(LIST_OFFSETS, schema.list_offsets),
    ]
}

fn row(api_key: i16, versions: wire::Versions) -> (r: ApiVersion)
    ensures
        r == api_row(api_key, versions),
{
    ApiVersion { api_key, min_version: versions.min, max_version: versions.max }
}

pub fn advertised(schema: &HarnessSchema) -> (r: Vec<ApiVersion>)
    ensures
        r@ == spec_advertised(*schema),
{
    let rows: Vec<ApiVersion> = vec![
        row(API_VERSIONS, schema.api_versions),
        row(PRODUCE, schema.produce),
        row(INIT_PRODUCER_ID, schema.init_producer_id),
        row(SASL_HANDSHAKE, schema.sasl_handshake),
        row(SASL_AUTHENTICATE, schema.sasl_authenticate),
        row(FETCH, schema.fetch),
        row(METADATA, schema.metadata),
        row(LIST_OFFSETS, schema.list_offsets),
    ];
    assert(rows@ =~= spec_advertised(*schema));
    rows
}

/// The signed value of two bytes, the most significant first.
pub open spec fn be_i16(high: u8, low: u8) -> int {
    (if high >= 128 { high - 256 } else { high as int }) * 256 + low
}

fn read_be_i16(high: u8, low: u8) -> (r: i16)
    ensures
        r == be_i16(high, low),
{
    let top: i16 = if high >= 128 { high as i16 - 256 } else { high as i16 };
    top * 256 + low as i16
}

/// The api key and version a frame begins with, if it can hold a header.
pub open spec fn spec_frame_api(frame: Seq<u8>) -> Option<(i16, i16)> {
    if frame.len() < 8 {
        None
    } else {
        Some((be_i16(frame[0], frame[1]) as i16, be_i16(frame[2], frame[3]) as i16))
    }
}

pub fn frame_api(frame: &Vec<u8>) -> (r: Option<(i16, i16)>)
    ensures
        r == spec_frame_api(frame@),
{
    if frame.len() < 8 {
        None
    } else {
        Some((read_be_i16(frame[0], frame[1]), read_be_i16(frame[2], frame[3])))
    }
}

/// The version a request's header is looked up under: an ApiVersions probe
/// above what the harness speaks is legal, and read at its newest.
pub open spec fn spec_header_lookup(api_key: i16, api_version: i16, newest: i16) -> i16 {
    if api_key == API_VERSIONS && api_version > newest {
        newest
    } else {
        api_version
    }
}

pub fn header_lookup(api_key: i16, api_version: i16, newest: i16) -> (r: i16)
    ensures
        r == spec_header_lookup(api_key, api_version, newest),
{
    if api_key == API_VERSIONS && api_version > newest {
        newest
    } else {
        api_version
    }
}

/// Whether a request's body is one the harness reads: that of every api it
/// advertises, but for an ApiVersions probe above the newest version.
pub open spec fn spec_reads_body(api_key: i16, api_version: i16, newest: i16) -> bool {
    (api_key == API_VERSIONS && api_version <= newest) || api_key == PRODUCE || api_key == FETCH
        || api_key == METADATA || api_key == LIST_OFFSETS || api_key == SASL_HANDSHAKE
        || api_key == INIT_PRODUCER_ID || api_key == SASL_AUTHENTICATE
}

pub fn reads_body(api_key: i16, api_version: i16, newest: i16) -> (r: bool)
    ensures
        r == spec_reads_body(api_key, api_version, newest),
{
    (api_key == API_VERSIONS && api_version <= newest) || api_key == PRODUCE || api_key == FETCH
        || api_key == METADATA || api_key == LIST_OFFSETS || api_key == SASL_HANDSHAKE
        || api_key == INIT_PRODUCER_ID || api_key == SASL_AUTHENTICATE
}

/// The body of every request that the harness advertises is read.
pub proof fn law_advertised_bodies_are_read(schema: HarnessSchema, i: int, api_version: i16)
    requires
        0 <= i < spec_advertised(schema).len(),
        api_version <= spec_advertised(schema)[i].max_version,
    ensures
        spec_reads_body(
            spec_advertised(schema)[i].api_key,
            api_version,
            schema.api_versions.max,
        ),
{
}

/// A topic as a produce, a fetch or an offset lookup addresses it. An offset
/// lookup has no id to address it by.
#[derive(Debug)]
pub struct AskedTopic {
    pub name: String,
    pub topic_id: Option<TopicId>,
    pub partitions: Vec<i32>,
}

/// A request body as it decoded, as far as it is looked at.
#[derive(Debug)]
pub enum SeenBody {
    /// A body that says nothing the harness needs.
    Other,
    Topics(Vec<AskedTopic>),
    Mechanism(String),
}

/// A body's decoding: what came out and how much was left over.
#[derive(Debug)]
pub struct BodyReading {
    pub decoded: Result<SeenBody, String>,
    pub trailing: usize,
}

/// The version of the flexible request header.
pub const FLEXIBLE_HEADER: i16 = 2;
/// The version of the classic request header.
pub const CLASSIC_HEADER: i16 = 1;

/// What a frame reads as at each header version, where it does.
#[derive(Debug, Clone, Copy)]
pub struct Attempts {
    pub flexible: Option<SeenHeader>,
    pub classic: Option<SeenHeader>,
}

/// Best-effort header recovery so the session can continue: the flexible
/// encoding, then the classic one.
pub open spec fn spec_salvage(attempts: Attempts) -> Option<SeenHeader> {
    match attempts.flexible {
        Some(header) => Some(header),
        None => attempts.classic,
    }
}

fn salvage_header(attempts: Attempts) -> (r: Option<SeenHeader>)
    ensures
        r == spec_salvage(attempts),
{
    match attempts.flexible {
        Some(header) => Some(header),
        None => attempts.classic,
    }
}

/// What was made of a request's header, and of its body where it was read.
#[derive(Debug)]
pub enum Reading {
    /// No header version is defined for the api.
    NoVersion(Attempts),
    /// The header did not decode at its version.
    BadHeader { version: i16, error: String, attempts: Attempts },
    /// The header decoded; the body was read where it is one to read.
    Good { header: SeenHeader, body: Option<BodyReading> },
}

/// A topic reference as a name.
pub open spec fn spec_resolve_topic(name: Seq<char>, topic_id: TopicId) -> Seq<char> {
    if name.len() > 0 {
        name
    } else if topic_id@ == ROUTING_TOPIC_ID@ {
        spec_routing_topic()
    } else {
        "<topic id "@ + text::hex_list(topic_id@) + ">"@
    }
}

pub fn resolve_topic(name: &String, topic_id: &TopicId) -> (r: String)
    ensures
        r@ == spec_resolve_topic(name@, *topic_id),
{
    let routing: TopicId = ROUTING_TOPIC_ID;
    if !name.as_str().is_empty() {
        name.clone()
    } else if same_bytes(topic_id.as_slice(), routing.as_slice()) {
        String::from_str(routing_topic())
    } else {
        line("<topic id ").hexes(topic_id.as_slice()).lit(">").done()
    }
}

/// A route in specifications.
pub type RouteView = (Seq<char>, i32);

pub open spec fn route_views(routes: Seq<Route>) -> Seq<RouteView> {
    routes.map_values(|r: Route| (r.topic@, r.partition))
}

/// The pairs that one topic of a request addresses.
pub open spec fn topic_routes(topic: AskedTopic) -> Seq<RouteView> {
    topic.partitions@.map_values(|p: i32| (spec_topic_name(topic), p))
}

/// The name of a topic that is addressed.
pub open spec fn spec_topic_name(topic: AskedTopic) -> Seq<char> {
    match topic.topic_id {
        Some(id) => spec_resolve_topic(topic.name@, id),
        None => topic.name@,
    }
}

fn topic_name(topic: &AskedTopic) -> (r: String)
    ensures
        r@ == spec_topic_name(*topic),
{
    match &topic.topic_id {
        Some(id) => resolve_topic(&topic.name, id),
        None => topic.name.clone(),
    }
}

/// The pairs that a request addresses, in its order.
pub open spec fn body_routes(topics: Seq<AskedTopic>) -> Seq<RouteView>
    decreases topics.len(),
{
    if topics.len() == 0 {
        Seq::empty()
    } else {
        body_routes(topics.drop_last()) + topic_routes(topics.last())
    }
}

fn routes_of(topics: &Vec<AskedTopic>) -> (r: Vec<Route>)
    ensures
        route_views(r@) == body_routes(topics@),
{
    let mut routes: Vec<Route> = Vec::new();
    assert(route_views(routes@) =~= Seq::empty());
    let mut i: usize = 0;
    while i < topics.len()
        invariant
            i <= topics@.len(),
            route_views(routes@) == body_routes(topics@.take(i as int)),
        decreases topics@.len() - i,
    {
        assert(topics@.take(i + 1).drop_last() =~= topics@.take(i as int));
        let topic = &topics[i];
        let ghost before = route_views(routes@);
        let ghost these = topic_routes(*topic);
        let mut j: usize = 0;
        assert(before + these.take(0) =~= before);
        while j < topic.partitions.len()
            invariant
                j <= topic.partitions@.len(),
                these == topic_routes(*topic),
                route_views(routes@) == before + these.take(j as int),
            decreases topic.partitions@.len() - j,
        {
            let ghost held = routes@;
            let route = Route {
                topic: topic_name(topic),
                partition: topic.partitions[j],
            };
            routes.push(route);
            assert(route_views(routes@) =~= route_views(held).push(
                (route.topic@, route.partition),
            ));
            assert(before + these.take(j + 1) =~= (before + these.take(j as int)).push(
                these[j as int],
            ));
            j = j + 1;
        }
        assert(these.take(j as int) =~= these);
        i = i + 1;
    }
    assert(topics@.take(i as int) =~= topics@);
    routes
}

/// An observation by its characters.
#[verifier::ext_equal]
pub struct ObservationView {
    pub node_id: i32,
    pub conn_id: usize,
    pub index: usize,
    pub at_ms: u64,
    pub api_key: i16,
    pub api_version: i16,
    pub header: Option<SeenHeader>,
    pub header_error: Option<Seq<char>>,
    pub body_error: Option<Seq<char>>,
    pub body_exempt: bool,
    pub routes: Seq<RouteView>,
    pub sasl_mechanism: Option<Seq<char>>,
}

impl View for Observation {
    type V = ObservationView;

    open spec fn view(&self) -> ObservationView {
        ObservationView {
            node_id: self.node_id,
            conn_id: self.conn_id,
            index: self.index,
            at_ms: self.at_ms,
            api_key: self.api_key,
            api_version: self.api_version,
            header: self.header,
            header_error: wire::opt_view(self.header_error),
            body_error: wire::opt_view(self.body_error),
            body_exempt: self.body_exempt,
            routes: route_views(self.routes@),
            sasl_mechanism: wire::opt_view(self.sasl_mechanism),
        }
    }
}

/// Where and when a frame arrived.
#[derive(Debug, Clone, Copy)]
pub struct Arrival {
    pub node_id: i32,
    pub conn_id: usize,
    pub index: usize,
    pub at_ms: u64,
}

/// An observation of a frame that nothing was read from.
pub open spec fn blank(at: Arrival) -> ObservationView {
    ObservationView {
        node_id: at.node_id,
        conn_id: at.conn_id,
        index: at.index,
        at_ms: at.at_ms,
        api_key: NO_API,
        api_version: NO_API,
        header: None,
        header_error: None,
        body_error: None,
        body_exempt: true,
        routes: Seq::empty(),
        sasl_mechanism: None,
    }
}

/// What stands for an api that could not be read.
pub const NO_API: i16 = -1;

fn blank_at(at: Arrival) -> (r: Observation)
    ensures
        r@ == blank(at),
{
    let r = Observation {
        node_id: at.node_id,
        conn_id: at.conn_id,
        index: at.index,
        at_ms: at.at_ms,
        api_key: NO_API,
        api_version: NO_API,
        header: None,
        header_error: None,
        body_error: None,
        body_exempt: true,
        routes: Vec::new(),
        sasl_mechanism: None,
    };
    assert(r@ =~= blank(at));
    r
}

/// A frame too short to hold a header.
pub fn short_frame(at: Arrival, len: usize) -> (r: Observation)
    ensures
        r@ == (ObservationView {
            header_error: Some(
                "frame of "@ + text::dec(len as int) + " byte(s) cannot hold a header"@,
            ),
            ..blank(at)
        }),
{
    let mut o = blank_at(at);
    o.header_error = Some(
        line("frame of ").count(len as u128).lit(" byte(s) cannot hold a header").done(),
    );
    o
}

/// What a body's decoding amounts to: it must decode and use every byte.
pub open spec fn spec_body_error(reading: BodyReading) -> Option<Seq<char>> {
    match reading.decoded {
        Err(e) => Some("body: "@ + e@),
        Ok(_) => if reading.trailing > 0 {
            Some(
                "body leaves "@ + text::dec(reading.trailing as int)
                    + " undecoded trailing byte(s)"@,
            )
        } else {
            None
        },
    }
}

fn body_error(reading: &BodyReading) -> (r: Option<String>)
    ensures
        wire::opt_view(r) == spec_body_error(*reading),
{
    match &reading.decoded {
        Err(e) => Some(line("body: ").lit(e.as_str()).done()),
        Ok(_) => if reading.trailing > 0 {
            Some(
                line("body leaves ").count(reading.trailing as u128).lit(
                    " undecoded trailing byte(s)",
                ).done(),
            )
        } else {
            None
        },
    }
}

/// What is recorded of a request whose api could be read.
pub open spec fn spec_observe(at: Arrival, api_key: i16, api_version: i16, reading: Reading)
    -> ObservationView {
    let seen = ObservationView { api_key, api_version, ..blank(at) };
    match reading {
        Reading::NoVersion(attempts) =>
            ObservationView { header: spec_salvage(attempts), ..seen },
        Reading::BadHeader { version, error, attempts } => ObservationView {
            header: spec_salvage(attempts),
            header_error: Some(
                "header (v"@ + text::dec(version as int) + "): "@ + error@,
            ),
            ..seen
        },
        Reading::Good { header, body: None } => ObservationView { header: Some(header), ..seen },
        Reading::Good { header, body: Some(body) } => {
            let error = spec_body_error(body);
            ObservationView {
                header: Some(header),
                body_exempt: false,
                body_error: error,
                routes: match (error, body.decoded) {
                    (None, Ok(SeenBody::Topics(topics))) => body_routes(topics@),
                    _ => Seq::empty(),
                },
                sasl_mechanism: match (error, body.decoded) {
                    (None, Ok(SeenBody::Mechanism(mechanism))) => Some(mechanism@),
                    _ => None,
                },
                ..seen
            }
        },
    }
}

/// Records a request.
pub fn observe(at: Arrival, api_key: i16, api_version: i16, reading: Reading) -> (r: Observation)
    ensures
        r@ == spec_observe(at, api_key, api_version, reading),
{
    let mut o = blank_at(at);
    o.api_key = api_key;
    o.api_version = api_version;
    match reading {
        Reading::NoVersion(attempts) => {
            o.header = salvage_header(attempts);
        },
        Reading::BadHeader { version, error, attempts } => {
            o.header = salvage_header(attempts);
            o.header_error = Some(
                line("header (v").num(version as i64).lit("): ").lit(error.as_str()).done(),
            );
        },
        Reading::Good { header, body } => {
            o.header = Some(header);
            if let Some(body) = body {
                o.body_exempt = false;
                o.body_error = body_error(&body);
                if o.body_error.is_none() {
                    match &body.decoded {
                        Ok(SeenBody::Topics(topics)) => {
                            o.routes = routes_of(topics);
                        },
                        Ok(SeenBody::Mechanism(mechanism)) => {
                            o.sasl_mechanism = Some(mechanism.clone());
                        },
                        _ => {},
                    }
                }
            }
        },
    }
    assert(o@ =~= spec_observe(at, api_key, api_version, reading));
    o
}

} // verus!

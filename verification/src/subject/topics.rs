//! What the reference subject says of itself and of its topics.

use vstd::prelude::*;
use vstd::string::*;

use crate::subject::replies::{
    ApiVersionsReply, ApiVersionsReplyView, BrokerReply, BrokerReplyView, CreateTopicsReply,
    CreateTopicsReplyView, CreatedTopic, CreatedTopicView, DeleteTopicsReply,
    DeleteTopicsReplyView, DeletedTopic, DeletedTopicView, MetadataReply, MetadataReplyView,
    PartitionReply, PartitionReplyView, TopicReply, TopicReplyView,
};
use crate::subject::requests::{
    CreateTopicsAsk, CreateTopicsAskView, DeleteTopicsAsk, DeleteTopicsAskView, MetadataAsk,
    MetadataAskView, NamedTopic, NamedTopicView, NewTopic, NewTopicView,
};
use crate::subject::state;
use crate::subject::state::{placement_over, ClusterState, ClusterView, LogView};
use crate::subject::{injected, Fault};
use crate::text;
use crate::text::same_text;
use crate::wire;
use crate::wire::{
    ApiVersion, Schema, TopicId, Versions, ADD_OFFSETS_TO_TXN, ADD_PARTITIONS_TO_TXN, API_VERSIONS,
    CONSUMER_GROUP_HEARTBEAT, CREATE_TOPICS, DELETE_TOPICS, DESCRIBE_GROUPS, END_TXN, FETCH,
    FIND_COORDINATOR, HEARTBEAT, INIT_PRODUCER_ID, INVALID_REPLICATION_FACTOR, JOIN_GROUP,
    LEAVE_GROUP, LIST_OFFSETS, METADATA, NONE, OFFSET_COMMIT, OFFSET_FETCH, PRODUCE,
    SASL_AUTHENTICATE, SASL_HANDSHAKE, SYNC_GROUP, TOPIC_ALREADY_EXISTS, TXN_OFFSET_COMMIT,
    UNKNOWN_TOPIC_OR_PARTITION, UNSUPPORTED_VERSION,
};

verus! {

/// One advertised api.
pub open spec fn api_row(api_key: i16, versions: Versions) -> ApiVersion {
    ApiVersion { api_key, min_version: versions.min, max_version: versions.max }
}

fn row(api_key: i16, versions: Versions) -> (r: ApiVersion)
    ensures
        r == api_row(api_key, versions),
{
    ApiVersion { api_key, min_version: versions.min, max_version: versions.max }
}

/// What the subject serves: the codec's whole range of each of its apis.
pub open spec fn spec_advertised_keys(schema: Schema) -> Seq<ApiVersion> {
    seq![
        api_row(API_VERSIONS, schema.api_versions),
        api_row(PRODUCE, schema.produce),
        api_row(FETCH, schema.fetch),
        api_row(METADATA, schema.metadata),
        api_row(CREATE_TOPICS, schema.create_topics),
        api_row(LIST_OFFSETS, schema.list_offsets),
        api_row(FIND_COORDINATOR, schema.find_coordinator),
        api_row(DESCRIBE_GROUPS, schema.describe_groups),
        api_row(DELETE_TOPICS, schema.delete_topics),
        api_row(INIT_PRODUCER_ID, schema.init_producer_id),
        api_row(ADD_PARTITIONS_TO_TXN, schema.add_partitions_to_txn),
        api_row(END_TXN, schema.end_txn),
        api_row(ADD_OFFSETS_TO_TXN, schema.add_offsets_to_txn),
        api_row(TXN_OFFSET_COMMIT, schema.txn_offset_commit),
        api_row(OFFSET_COMMIT, schema.offset_commit),
        api_row(OFFSET_FETCH, schema.offset_fetch),
        api_row(JOIN_GROUP, schema.join_group),
        api_row(SYNC_GROUP, schema.sync_group),
        api_row(HEARTBEAT, schema.heartbeat),
        api_row(LEAVE_GROUP, schema.leave_group),
        api_row(CONSUMER_GROUP_HEARTBEAT, schema.consumer_group_heartbeat),
        api_row(SASL_HANDSHAKE, schema.sasl_handshake),
        api_row(SASL_AUTHENTICATE, schema.sasl_authenticate),
    ]
}

/// What the subject serves. Its produce and fetch handlers resolve topic ids,
/// so even the versions that address by id are served.
pub fn advertised_keys(schema: &Schema) -> (r: Vec<ApiVersion>)
    ensures
        r@ == spec_advertised_keys(*schema),
{
    let keys: Vec<ApiVersion> = vec![
        row(API_VERSIONS, schema.api_versions),
        row(PRODUCE, schema.produce),
        row(FETCH, schema.fetch),
        row(METADATA, schema.metadata),
        row(CREATE_TOPICS, schema.create_topics),
        row(LIST_OFFSETS, schema.list_offsets),
        row(FIND_COORDINATOR, schema.find_coordinator),
        row(DESCRIBE_GROUPS, schema.describe_groups),
        row(DELETE_TOPICS, schema.delete_topics),
        row(INIT_PRODUCER_ID, schema.init_producer_id),
        row(ADD_PARTITIONS_TO_TXN, schema.add_partitions_to_txn),
        row(END_TXN, schema.end_txn),
        row(ADD_OFFSETS_TO_TXN, schema.add_offsets_to_txn),
        row(TXN_OFFSET_COMMIT, schema.txn_offset_commit),
        row(OFFSET_COMMIT, schema.offset_commit),
        row(OFFSET_FETCH, schema.offset_fetch),
        row(JOIN_GROUP, schema.join_group),
        row(SYNC_GROUP, schema.sync_group),
        row(HEARTBEAT, schema.heartbeat),
        row(LEAVE_GROUP, schema.leave_group),
        row(CONSUMER_GROUP_HEARTBEAT, schema.consumer_group_heartbeat),
        row(SASL_HANDSHAKE, schema.sasl_handshake),
        row(SASL_AUTHENTICATE, schema.sasl_authenticate),
    ];
    assert(keys@ =~= spec_advertised_keys(*schema));
    keys
}

/// The first row of an api, from the `i`th on.
pub open spec fn row_of(keys: Seq<ApiVersion>, api_key: i16, i: int) -> Option<int>
    decreases keys.len() - i,
{
    if !(0 <= i < keys.len()) {
        None
    } else if keys[i].api_key == api_key {
        Some(i)
    } else {
        row_of(keys, api_key, i + 1)
    }
}

/// The rows with the first one of an api changed.
pub open spec fn amended(
    keys: Seq<ApiVersion>,
    api_key: i16,
    change: spec_fn(ApiVersion) -> ApiVersion,
) -> Seq<ApiVersion> {
    match row_of(keys, api_key, 0) {
        Some(i) => keys.update(i, change(keys[i])),
        None => keys,
    }
}

fn find_row(keys: &Vec<ApiVersion>, api_key: i16) -> (r: Option<usize>)
    ensures
        match r {
            Some(i) => i < keys@.len() && row_of(keys@, api_key, 0) == Some(i as int),
            None => row_of(keys@, api_key, 0) is None,
        },
{
    let mut i: usize = 0;
    while i < keys.len()
        invariant
            i <= keys@.len(),
            row_of(keys@, api_key, 0) == row_of(keys@, api_key, i as int),
        decreases keys@.len() - i,
    {
        if keys[i].api_key == api_key {
            return Some(i);
        }
        i = i + 1;
    }
    None
}

/// The range whose ends are the wrong way round.
pub open spec fn inverted() -> spec_fn(ApiVersion) -> ApiVersion {
    |k: ApiVersion| ApiVersion { min_version: 12, max_version: 3, ..k }
}

/// A range that reaches one version further.
pub open spec fn one_more() -> spec_fn(ApiVersion) -> ApiVersion {
    |k: ApiVersion| ApiVersion { max_version: k.max_version.wrapping_add(1), ..k }
}

/// What an ApiVersions answer advertises.
pub open spec fn spec_api_keys(
    schema: Schema,
    supported: bool,
    faults: Seq<Fault>,
) -> Seq<ApiVersion> {
    let all = spec_advertised_keys(schema);
    let kept = if faults.contains(Fault::OmitApiVersionsKey) {
        all.filter(|k: ApiVersion| k.api_key != API_VERSIONS)
    } else {
        all
    };
    let ranged = if faults.contains(Fault::InvertedVersionRange) {
        amended(kept, PRODUCE, inverted())
    } else {
        kept
    };
    if !supported && faults.contains(Fault::AdvertiseWrongMaxInError) {
        amended(ranged, API_VERSIONS, one_more())
    } else {
        ranged
    }
}

fn without_api_versions(keys: &Vec<ApiVersion>) -> (r: Vec<ApiVersion>)
    ensures
        r@ == keys@.filter(|k: ApiVersion| k.api_key != API_VERSIONS),
{
    let ghost kept = |k: ApiVersion| k.api_key != API_VERSIONS;
    let mut out: Vec<ApiVersion> = Vec::new();
    let mut i: usize = 0;
    assert(keys@.take(0).filter(kept) =~= Seq::empty()) by {
        reveal(Seq::filter);
    }
    while i < keys.len()
        invariant
            i <= keys@.len(),
            kept == (|k: ApiVersion| k.api_key != API_VERSIONS),
            out@ == keys@.take(i as int).filter(kept),
        decreases keys@.len() - i,
    {
        proof {
            assert(keys@.take(i + 1).drop_last() =~= keys@.take(i as int));
            reveal(Seq::filter);
        }
        if keys[i].api_key != API_VERSIONS {
            out.push(keys[i]);
        }
        i = i + 1;
    }
    assert(keys@.take(i as int) =~= keys@);
    out
}

/// Whether the subject speaks an ApiVersions version.
pub open spec fn spec_supported(schema: Schema, api_version: i16) -> bool {
    api_version <= schema.api_versions.max
}

/// The ApiVersions answer, with the code that a version it does not speak
/// gets.
pub open spec fn spec_api_versions(
    schema: Schema,
    api_version: i16,
    faults: Seq<Fault>,
) -> ApiVersionsReplyView {
    let supported = spec_supported(schema, api_version);
    ApiVersionsReplyView {
        error_code: if supported || faults.contains(Fault::WrongErrorOnUnsupportedVersion) {
            NONE
        } else {
            UNSUPPORTED_VERSION
        },
        api_keys: spec_api_keys(schema, supported, faults),
    }
}

/// Answers ApiVersions.
pub fn api_versions(schema: &Schema, api_version: i16, faults: &Vec<Fault>) -> (r: ApiVersionsReply)
    ensures
        r@ == spec_api_versions(*schema, api_version, faults@),
{
    let supported = api_version <= schema.api_versions.max;
    let all = advertised_keys(schema);
    let mut keys = if injected(faults, Fault::OmitApiVersionsKey) {
        without_api_versions(&all)
    } else {
        all
    };
    if injected(faults, Fault::InvertedVersionRange) {
        if let Some(i) = find_row(&keys, PRODUCE) {
            let api_key: i16 = keys[i].api_key;
            keys.set(i, ApiVersion { api_key, min_version: 12, max_version: 3 });
        }
    }
    if !supported && injected(faults, Fault::AdvertiseWrongMaxInError) {
        if let Some(i) = find_row(&keys, API_VERSIONS) {
            let k = keys[i];
            keys.set(
                i,
                ApiVersion {
                    api_key: k.api_key,
                    min_version: k.min_version,
                    max_version: k.max_version.wrapping_add(1),
                },
            );
        }
    }
    let error_code: i16 = if supported || injected(faults, Fault::WrongErrorOnUnsupportedVersion) {
        NONE
    } else {
        UNSUPPORTED_VERSION
    };
    ApiVersionsReply { error_code, api_keys: keys }
}

/// The names that a Metadata request asks about.
pub open spec fn requested(topics: Option<Seq<NamedTopicView>>) -> Seq<Seq<char>> {
    match topics {
        Some(topics) => named(topics),
        None => Seq::empty(),
    }
}

/// The names among topics, in order.
pub open spec fn named(topics: Seq<NamedTopicView>) -> Seq<Seq<char>>
    decreases topics.len(),
{
    if topics.len() == 0 {
        Seq::empty()
    } else {
        match topics.last().name {
            Some(name) => named(topics.drop_last()).push(name),
            None => named(topics.drop_last()),
        }
    }
}

fn names_of(topics: &Vec<NamedTopic>) -> (r: Vec<String>)
    ensures
        text::views(r@) == named(topics@.map_values(|row: NamedTopic| row@)),
{
    let ghost all = topics@.map_values(|row: NamedTopic| row@);
    let mut names: Vec<String> = Vec::new();
    let mut i: usize = 0;
    assert(text::views(names@) =~= named(all.take(0)));
    while i < topics.len()
        invariant
            i <= topics@.len(),
            all == topics@.map_values(|row: NamedTopic| row@),
            text::views(names@) == named(all.take(i as int)),
        decreases topics@.len() - i,
    {
        assert(all.take(i + 1).drop_last() =~= all.take(i as int));
        assert(all[i as int] == topics@[i as int]@);
        if let Some(name) = &topics[i].name {
            let ghost before = text::views(names@);
            names.push(name.clone());
            assert(text::views(names@) =~= before.push(name@));
        }
        i = i + 1;
    }
    assert(all.take(i as int) =~= all);
    names
}

/// The last four bytes of an id made from a correlation id.
pub open spec fn salt(correlation_id: i32) -> Seq<u8> {
    let n = correlation_id as u32;
    seq![(n >> 24) as u8, (n >> 16) as u8, (n >> 8) as u8, n as u8]
}

/// The id that Metadata reports for a topic.
pub open spec fn reported_id(id: Seq<u8>, correlation_id: i32, faults: Seq<Fault>) -> Seq<u8> {
    if faults.contains(Fault::MetadataRemintsTopicId) {
        id.take(12) + salt(correlation_id)
    } else {
        id
    }
}

fn report_id(id: &TopicId, correlation_id: i32, faults: &Vec<Fault>) -> (r: TopicId)
    ensures
        r@ == reported_id(id@, correlation_id, faults@),
{
    if !injected(faults, Fault::MetadataRemintsTopicId) {
        return *id;
    }
    let n: u32 = #[verifier::truncate] (correlation_id as u32);
    let minted: TopicId = [
        id[0],
        id[1],
        id[2],
        id[3],
        id[4],
        id[5],
        id[6],
        id[7],
        id[8],
        id[9],
        id[10],
        id[11],
        #[verifier::truncate] ((n >> 24) as u8),
        #[verifier::truncate] ((n >> 16) as u8),
        #[verifier::truncate] ((n >> 8) as u8),
        #[verifier::truncate] (n as u8),
    ];
    assert(minted@ =~= id@.take(12) + salt(correlation_id));
    minted
}

/// The leader that a broker reports for a topic.
pub open spec fn reported_leader(
    state: ClusterView,
    name: Seq<char>,
    node_id: i32,
    faults: Seq<Fault>,
) -> i32 {
    if faults.contains(Fault::BrokersDisagreeOnLeader) {
        node_id
    } else if faults.contains(Fault::LeadershipStaysWithTheStoppedBroker) {
        state::spec_placement_over(name, state.node_ids())
    } else {
        state.placement(name)
    }
}

/// Every node but one.
pub open spec fn other_than(leader: i32) -> spec_fn(i32) -> bool {
    |id: i32| id != leader
}

/// A leader followed by every other node.
pub open spec fn led_by(leader: i32, nodes: Seq<i32>) -> Seq<i32> {
    seq![leader] + nodes.filter(other_than(leader))
}

/// The replicas that are reported: every node, the leader first.
pub open spec fn reported_replicas(state: ClusterView, leader: i32, faults: Seq<Fault>) -> Seq<
    i32,
> {
    if faults.contains(Fault::ReplicasCollapseToTheLeader) {
        seq![leader]
    } else {
        led_by(leader, state.node_ids())
    }
}

/// A topic as Metadata describes it: with its one partition where it exists,
/// with an error where it does not.
pub open spec fn spec_topic(
    state: ClusterView,
    name: Seq<char>,
    correlation_id: i32,
    node_id: i32,
    faults: Seq<Fault>,
) -> TopicReplyView {
    if state.created.contains_key(name) {
        let leader = reported_leader(state, name, node_id, faults);
        let replicas = reported_replicas(state, leader, faults);
        TopicReplyView {
            error_code: NONE,
            name: Some(name),
            topic_id: reported_id(state.created[name], correlation_id, faults),
            partitions: seq![
                PartitionReplyView {
                    error_code: NONE,
                    partition_index: 0,
                    leader_id: if faults.contains(Fault::MetadataLeaderIsUnknown) {
                        leader.wrapping_add(999)
                    } else {
                        leader
                    },
                    leader_epoch: 0,
                    replica_nodes: replicas,
                    isr_nodes: replicas,
                },
            ],
        }
    } else {
        TopicReplyView {
            error_code: UNKNOWN_TOPIC_OR_PARTITION,
            name: Some(name),
            topic_id: wire::zero_id(),
            partitions: Seq::empty(),
        }
    }
}

/// The brokers that Metadata names: every one of the cluster.
pub open spec fn spec_brokers(state: ClusterView, faults: Seq<Fault>) -> Seq<BrokerReplyView> {
    if faults.contains(Fault::MetadataEmptyBrokers) {
        Seq::empty()
    } else {
        Seq::new(
            state.ports.len(),
            |i: int|
                BrokerReplyView {
                    node_id: state::spec_node_at(i),
                    host: "127.0.0.1"@,
                    port: state.ports[i],
                },
        )
    }
}

/// The names that Metadata answers for: all it was asked about, unless the
/// fault leaves those out that stand for no topic.
pub open spec fn answered_names(state: ClusterView, names: Seq<Seq<char>>, faults: Seq<Fault>)
    -> Seq<Seq<char>>
    decreases names.len(),
{
    if names.len() == 0 {
        Seq::empty()
    } else {
        let rest = answered_names(state, names.drop_last(), faults);
        if faults.contains(Fault::MetadataUnknownTopicOmitted) && !state.created.contains_key(
            names.last(),
        ) {
            rest
        } else {
            rest.push(names.last())
        }
    }
}

/// Each of some topics as Metadata describes it.
pub open spec fn topics_of(
    state: ClusterView,
    names: Seq<Seq<char>>,
    correlation_id: i32,
    node_id: i32,
    faults: Seq<Fault>,
) -> Seq<TopicReplyView> {
    names.map_values(|name: Seq<char>| spec_topic(state, name, correlation_id, node_id, faults))
}

/// The topics that Metadata names: exactly those asked about.
pub open spec fn spec_topics(
    state: ClusterView,
    ask: MetadataAskView,
    correlation_id: i32,
    node_id: i32,
    faults: Seq<Fault>,
) -> Seq<TopicReplyView> {
    let names = requested(ask.topics);
    if faults.contains(Fault::MetadataUnrequestedTopic) && names.len() == 0 {
        seq![
            TopicReplyView {
                error_code: NONE,
                name: Some("phantom"@),
                topic_id: wire::zero_id(),
                partitions: Seq::empty(),
            },
        ]
    } else {
        topics_of(
            state,
            answered_names(state, names, faults),
            correlation_id,
            node_id,
            faults,
        )
    }
}

/// The Metadata answer of one broker.
pub open spec fn spec_metadata(
    state: ClusterView,
    ask: MetadataAskView,
    correlation_id: i32,
    node_id: i32,
    faults: Seq<Fault>,
) -> MetadataReplyView {
    MetadataReplyView {
        brokers: spec_brokers(state, faults),
        cluster_id: Some("odradek-reference"@),
        controller_id: 1,
        topics: spec_topics(state, ask, correlation_id, node_id, faults),
    }
}

fn no_id() -> (r: TopicId)
    ensures
        r@ == wire::zero_id(),
{
    let id: TopicId = [0, 0, 0, 0, 0, 0, 0, 0, 0, 0, 0, 0, 0, 0, 0, 0];
    assert(id@ =~= wire::zero_id());
    id
}

fn lead(leader: i32, nodes: &Vec<i32>) -> (r: Vec<i32>)
    ensures
        r@ == led_by(leader, nodes@),
{
    let ghost other = other_than(leader);
    let mut out: Vec<i32> = vec![leader];
    let mut i: usize = 0;
    assert(nodes@.take(0).filter(other) =~= Seq::empty()) by {
        reveal(Seq::filter);
    }
    assert(out@ =~= seq![leader] + nodes@.take(0).filter(other));
    while i < nodes.len()
        invariant
            i <= nodes@.len(),
            other == other_than(leader),
            out@ == seq![leader] + nodes@.take(i as int).filter(other),
        decreases nodes@.len() - i,
    {
        let ghost before = nodes@.take(i as int).filter(other);
        proof {
            assert(nodes@.take(i + 1).drop_last() =~= nodes@.take(i as int));
            reveal(Seq::filter);
        }
        if nodes[i] != leader {
            out.push(nodes[i]);
            assert(out@ =~= seq![leader] + before.push(nodes@[i as int]));
        }
        i = i + 1;
    }
    assert(nodes@.take(i as int) =~= nodes@);
    out
}

fn replicas_of(state: &ClusterState, leader: i32, faults: &Vec<Fault>) -> (r: Vec<i32>)
    ensures
        r@ == reported_replicas(state@, leader, faults@),
{
    if injected(faults, Fault::ReplicasCollapseToTheLeader) {
        let one: Vec<i32> = vec![leader];
        assert(one@ =~= seq![leader]);
        one
    } else {
        lead(leader, &state.node_ids())
    }
}

fn describe_topic(
    state: &ClusterState,
    name: &String,
    correlation_id: i32,
    node_id: i32,
    faults: &Vec<Fault>,
) -> (r: TopicReply)
    ensures
        r@ == spec_topic(state@, name@, correlation_id, node_id, faults@),
{
    match state.created.get(name) {
        Some(id) => {
            let leader: i32 = if injected(faults, Fault::BrokersDisagreeOnLeader) {
                node_id
            } else if injected(faults, Fault::LeadershipStaysWithTheStoppedBroker) {
                placement_over(name.as_str(), &state.node_ids())
            } else {
                state.placement(name.as_str())
            };
            let leader_id: i32 = if injected(faults, Fault::MetadataLeaderIsUnknown) {
                leader.wrapping_add(999)
            } else {
                leader
            };
            let partition = PartitionReply {
                error_code: NONE,
                partition_index: 0,
                leader_id,
                leader_epoch: 0,
                replica_nodes: replicas_of(state, leader, faults),
                isr_nodes: replicas_of(state, leader, faults),
            };
            let ghost seen = partition@;
            let r = TopicReply {
                error_code: NONE,
                name: Some(name.clone()),
                topic_id: report_id(id, correlation_id, faults),
                partitions: vec![partition],
            };
            assert(r@.partitions =~= seq![seen]);
            r
        },
        None => {
            let r = TopicReply {
                error_code: UNKNOWN_TOPIC_OR_PARTITION,
                name: Some(name.clone()),
                topic_id: no_id(),
                partitions: Vec::new(),
            };
            assert(r@.partitions =~= Seq::empty());
            r
        },
    }
}

fn broker_rows(state: &ClusterState, faults: &Vec<Fault>) -> (r: Vec<BrokerReply>)
    ensures
        r@.map_values(|row: BrokerReply| row@) == spec_brokers(state@, faults@),
{
    let mut rows: Vec<BrokerReply> = Vec::new();
    if injected(faults, Fault::MetadataEmptyBrokers) {
        assert(rows@.map_values(|row: BrokerReply| row@) =~= spec_brokers(state@, faults@));
        return rows;
    }
    let ids = state.node_ids();
    let mut i: usize = 0;
    while i < ids.len()
        invariant
            i <= ids@.len(),
            ids@ == state@.node_ids(),
            !faults@.contains(Fault::MetadataEmptyBrokers),
            rows@.len() == i,
            forall|j: int|
                0 <= j < i ==> (#[trigger] rows@[j])@ == spec_brokers(state@, faults@)[j],
        decreases ids@.len() - i,
    {
        rows.push(
            BrokerReply {
                node_id: ids[i],
                host: String::from_str("127.0.0.1"),
                port: state.ports[i],
            },
        );
        i = i + 1;
    }
    assert(rows@.map_values(|row: BrokerReply| row@) =~= spec_brokers(state@, faults@));
    rows
}

/// Answers Metadata as one broker of the cluster does.
pub fn metadata(
    state: &ClusterState,
    ask: &MetadataAsk,
    correlation_id: i32,
    node_id: i32,
    faults: &Vec<Fault>,
) -> (r: MetadataReply)
    ensures
        r@ == spec_metadata(state@, ask@, correlation_id, node_id, faults@),
{
    let names: Vec<String> = match &ask.topics {
        Some(topics) => names_of(topics),
        None => Vec::new(),
    };
    assert(text::views(names@) =~= requested(ask@.topics));
    let mut topics: Vec<TopicReply> = Vec::new();
    if injected(faults, Fault::MetadataUnrequestedTopic) && names.len() == 0 {
        let phantom = TopicReply {
            error_code: NONE,
            name: Some(String::from_str("phantom")),
            topic_id: no_id(),
            partitions: Vec::new(),
        };
        assert(phantom@.partitions =~= Seq::empty());
        topics.push(phantom);
    } else {
        let ghost all = text::views(names@);
        let omits = injected(faults, Fault::MetadataUnknownTopicOmitted);
        let mut i: usize = 0;
        assert(topics@.map_values(|row: TopicReply| row@) =~= topics_of(
            state@,
            answered_names(state@, all.take(0), faults@),
            correlation_id,
            node_id,
            faults@,
        ));
        while i < names.len()
            invariant
                i <= names@.len(),
                all == text::views(names@),
                omits == faults@.contains(Fault::MetadataUnknownTopicOmitted),
                topics@.map_values(|row: TopicReply| row@) == topics_of(
                    state@,
                    answered_names(state@, all.take(i as int), faults@),
                    correlation_id,
                    node_id,
                    faults@,
                ),
            decreases names@.len() - i,
        {
            assert(all.take(i + 1).drop_last() =~= all.take(i as int));
            assert(all[i as int] == names@[i as int]@);
            let ghost before = topics@.map_values(|row: TopicReply| row@);
            let ghost kept = answered_names(state@, all.take(i as int), faults@);
            if !(omits && !state.created.contains(&names[i])) {
                let topic = describe_topic(state, &names[i], correlation_id, node_id, faults);
                let ghost seen = topic@;
                topics.push(topic);
                assert(topics@.map_values(|row: TopicReply| row@) =~= before.push(seen));
                assert(topics_of(
                    state@,
                    kept.push(all[i as int]),
                    correlation_id,
                    node_id,
                    faults@,
                ) =~= before.push(seen));
            }
            i = i + 1;
        }
        assert(all.take(i as int) =~= all);
    }
    let r = MetadataReply {
        brokers: broker_rows(state, faults),
        cluster_id: Some(String::from_str("odradek-reference")),
        controller_id: 1,
        topics,
    };
    assert(r@.topics =~= spec_topics(state@, ask@, correlation_id, node_id, faults@));
    r
}

/// A byte turned left by less than eight places.
pub open spec fn turned(x: u8, by: u8) -> u8 {
    if by == 0 {
        x
    } else {
        (x << by) | (x >> ((8 - by) as u8))
    }
}

/// The running byte and the id that a name's bytes make, before the first bit
/// is set.
pub open spec fn stirred(bytes: Seq<u8>) -> (u8, Seq<u8>)
    decreases bytes.len(),
{
    if bytes.len() == 0 {
        (0x9e, wire::zero_id())
    } else {
        let (acc, id) = stirred(bytes.drop_last());
        let i = bytes.len() - 1;
        let next = acc.wrapping_mul(31).wrapping_add(bytes.last());
        (next, id.update(i % 16, id[i % 16] ^ turned(next, (i % 7) as u8)))
    }
}

/// The id that a topic of some name has.
pub open spec fn spec_mint_topic_id(name: Seq<char>) -> Seq<u8> {
    let id = stirred(vstd::utf8::encode_utf8(name)).1;
    id.update(0, id[0] | 1)
}

fn id_of(bytes: &Vec<u8>) -> (r: TopicId)
    requires
        bytes@.len() == 16,
    ensures
        r@ == bytes@,
{
    let id: TopicId = [
        bytes[0],
        bytes[1],
        bytes[2],
        bytes[3],
        bytes[4],
        bytes[5],
        bytes[6],
        bytes[7],
        bytes[8],
        bytes[9],
        bytes[10],
        bytes[11],
        bytes[12],
        bytes[13],
        bytes[14],
        bytes[15],
    ];
    assert(id@ =~= bytes@);
    id
}

pub proof fn lemma_stirred_len(bytes: Seq<u8>)
    ensures
        stirred(bytes).1.len() == 16,
    decreases bytes.len(),
{
    if bytes.len() > 0 {
        lemma_stirred_len(bytes.drop_last());
    }
}

fn turn(x: u8, by: u8) -> (r: u8)
    requires
        by < 7,
    ensures
        r == turned(x, by),
{
    if by == 0 {
        x
    } else {
        (x << by) | (x >> (8 - by))
    }
}

/// A topic id made from the name alone; never the id that stands for none.
pub fn mint_topic_id(name: &str) -> (r: TopicId)
    ensures
        r@ == spec_mint_topic_id(name@),
        r@ != wire::zero_id(),
{
    let bytes = name.as_bytes_vec();
    let mut id: Vec<u8> = vec![0, 0, 0, 0, 0, 0, 0, 0, 0, 0, 0, 0, 0, 0, 0, 0];
    let mut acc: u8 = 0x9e;
    let mut i: usize = 0;
    assert(id@ =~= wire::zero_id());
    assert(bytes@.take(0) =~= Seq::empty());
    while i < bytes.len()
        invariant
            i <= bytes@.len(),
            id@.len() == 16,
            (acc, id@) == stirred(bytes@.take(i as int)),
        decreases bytes@.len() - i,
    {
        assert(bytes@.take(i + 1).drop_last() =~= bytes@.take(i as int));
        acc = acc.wrapping_mul(31).wrapping_add(bytes[i]);
        let place: usize = i % 16;
        let by: u8 = (i % 7) as u8;
        let mixed: u8 = id[place] ^ turn(acc, by);
        id.set(place, mixed);
        i = i + 1;
    }
    assert(bytes@.take(i as int) =~= bytes@);
    let first: u8 = id[0] | 1;
    id.set(0, first);
    let r = id_of(&id);
    proof {
        let before = stirred(bytes@).1[0];
        assert((before | 1) != 0) by (bit_vector);
        assert(r@[0] == before | 1);
        assert(wire::zero_id()[0] == 0);
    }
    r
}

/// How many brokers there are, at least one, as far as a replication factor
/// can say.
pub open spec fn broker_limit(state: ClusterView) -> i16 {
    if state.ports.len() == 0 {
        1
    } else if state.ports.len() <= i16::MAX {
        state.ports.len() as i16
    } else {
        i16::MAX
    }
}

/// What a topic to be created is answered.
pub open spec fn creation_code(state: ClusterView, topic: NewTopicView, faults: Seq<Fault>) -> i16 {
    if state.created.contains_key(topic.name) && !faults.contains(
        Fault::CreateTopicsDuplicateSucceeds,
    ) {
        TOPIC_ALREADY_EXISTS
    } else if topic.replication_factor > broker_limit(state) && !faults.contains(
        Fault::CreateTopicsIgnoresReplicationFactor,
    ) {
        INVALID_REPLICATION_FACTOR
    } else {
        NONE
    }
}

/// The answer for one topic to be created.
pub open spec fn spec_created(state: ClusterView, topic: NewTopicView, faults: Seq<Fault>)
    -> CreatedTopicView {
    CreatedTopicView {
        name: topic.name,
        topic_id: spec_mint_topic_id(topic.name),
        error_code: creation_code(state, topic, faults),
        num_partitions: if topic.num_partitions > 1 {
            topic.num_partitions
        } else {
            1
        },
        replication_factor: if topic.replication_factor > 1 {
            topic.replication_factor
        } else {
            1
        },
    }
}

/// The cluster after a topic was to be created.
pub open spec fn after_create(
    state: ClusterView,
    topic: NewTopicView,
    validate_only: bool,
    faults: Seq<Fault>,
) -> ClusterView {
    if !state.created.contains_key(topic.name) && creation_code(state, topic, faults) == NONE
        && !validate_only {
        let id = spec_mint_topic_id(topic.name);
        ClusterView {
            created: state.created.insert(topic.name, id),
            topic_names: state.topic_names.insert(id, topic.name),
            ..state
        }
    } else {
        state
    }
}

/// The topics of a request created one after the other.
pub open spec fn create_all(
    state: ClusterView,
    topics: Seq<NewTopicView>,
    validate_only: bool,
    faults: Seq<Fault>,
) -> (ClusterView, Seq<CreatedTopicView>)
    decreases topics.len(),
{
    if topics.len() == 0 {
        (state, Seq::empty())
    } else {
        let (before, rows) = create_all(state, topics.drop_last(), validate_only, faults);
        (
            after_create(before, topics.last(), validate_only, faults),
            rows.push(spec_created(before, topics.last(), faults)),
        )
    }
}

/// Whether a request only asks what would happen.
pub open spec fn only_validates(ask: CreateTopicsAskView, faults: Seq<Fault>) -> bool {
    ask.validate_only && !faults.contains(Fault::CreateTopicsValidateOnlyCreates)
}

/// What CreateTopics does and answers.
pub open spec fn spec_create_topics(
    state: ClusterView,
    ask: CreateTopicsAskView,
    faults: Seq<Fault>,
) -> (ClusterView, CreateTopicsReplyView) {
    let (after, topics) = create_all(state, ask.topics, only_validates(ask, faults), faults);
    (after, CreateTopicsReplyView { topics })
}

fn create_one(
    state: &mut ClusterState,
    topic: &NewTopic,
    validate_only: bool,
    faults: &Vec<Fault>,
) -> (r: CreatedTopic)
    ensures
        r@ == spec_created(old(state)@, topic@, faults@),
        final(state)@ == after_create(old(state)@, topic@, validate_only, faults@),
{
    let topic_id = mint_topic_id(topic.name.as_str());
    let exists = state.created.contains(&topic.name);
    let count: usize = state.ports.len();
    let brokers: i16 = if count == 0 {
        1
    } else if count <= 0x7fff {
        count as i16
    } else {
        0x7fff
    };
    let error_code: i16 = if exists && !injected(faults, Fault::CreateTopicsDuplicateSucceeds) {
        TOPIC_ALREADY_EXISTS
    } else if topic.replication_factor > brokers && !injected(
        faults,
        Fault::CreateTopicsIgnoresReplicationFactor,
    ) {
        INVALID_REPLICATION_FACTOR
    } else {
        NONE
    };
    if !exists && error_code == NONE && !validate_only {
        state.created.insert(topic.name.clone(), topic_id);
        state.topic_names.insert(topic_id, topic.name.clone());
    }
    CreatedTopic {
        name: topic.name.clone(),
        topic_id,
        error_code,
        num_partitions: if topic.num_partitions > 1 {
            topic.num_partitions
        } else {
            1
        },
        replication_factor: if topic.replication_factor > 1 {
            topic.replication_factor
        } else {
            1
        },
    }
}

/// Answers CreateTopics. A topic creates once, and what is only validated is
/// answered as a creation would be, without one.
pub fn create_topics(state: &mut ClusterState, ask: &CreateTopicsAsk, faults: &Vec<Fault>) -> (r:
    CreateTopicsReply)
    ensures
        (final(state)@, r@) == spec_create_topics(old(state)@, ask@, faults@),
{
    let validate_only = ask.validate_only && !injected(faults, Fault::CreateTopicsValidateOnlyCreates);
    let ghost start = state@;
    let ghost all = ask@.topics;
    let mut topics: Vec<CreatedTopic> = Vec::new();
    let mut i: usize = 0;
    assert(topics@.map_values(|row: CreatedTopic| row@) =~= Seq::empty());
    while i < ask.topics.len()
        invariant
            i <= ask.topics@.len(),
            start == old(state)@,
            all == ask@.topics,
            (state@, topics@.map_values(|row: CreatedTopic| row@)) == create_all(
                start,
                all.take(i as int),
                validate_only,
                faults@,
            ),
        decreases ask.topics@.len() - i,
    {
        let ghost before = topics@.map_values(|row: CreatedTopic| row@);
        assert(all.take(i + 1).drop_last() =~= all.take(i as int));
        assert(all[i as int] == ask.topics@[i as int]@);
        let made = create_one(state, &ask.topics[i], validate_only, faults);
        let ghost seen = made@;
        topics.push(made);
        assert(topics@.map_values(|row: CreatedTopic| row@) =~= before.push(seen));
        i = i + 1;
    }
    assert(all.take(i as int) =~= all);
    CreateTopicsReply { topics }
}

/// The logs of all topics but one.
pub open spec fn without_topic(logs: Map<(Seq<char>, i32), LogView>, name: Seq<char>) -> Map<
    (Seq<char>, i32),
    LogView,
> {
    logs.restrict(Set::new(|key: (Seq<char>, i32)| logs.contains_key(key) && key.0 != name))
}

/// The cluster after a topic was to be deleted.
pub open spec fn after_delete(state: ClusterView, name: Seq<char>, faults: Seq<Fault>)
    -> ClusterView {
    if state.created.contains_key(name) && !faults.contains(Fault::DeleteTopicsKeepsTheTopic) {
        ClusterView {
            created: state.created.remove(name),
            topic_names: state.topic_names.remove(state.created[name]),
            logs: without_topic(state.logs, name),
            ..state
        }
    } else {
        state
    }
}

/// The answer for one topic to be deleted.
pub open spec fn spec_deleted(state: ClusterView, name: Seq<char>) -> DeletedTopicView {
    DeletedTopicView {
        name: Some(name),
        error_code: if state.created.contains_key(name) {
            NONE
        } else {
            UNKNOWN_TOPIC_OR_PARTITION
        },
    }
}

/// Topics deleted one after the other.
pub open spec fn delete_all(state: ClusterView, names: Seq<Seq<char>>, faults: Seq<Fault>) -> (
    ClusterView,
    Seq<DeletedTopicView>,
)
    decreases names.len(),
{
    if names.len() == 0 {
        (state, Seq::empty())
    } else {
        let (before, rows) = delete_all(state, names.drop_last(), faults);
        (after_delete(before, names.last(), faults), rows.push(spec_deleted(before, names.last())))
    }
}

/// The names that a DeleteTopics request gives, in whichever shape.
pub open spec fn doomed(ask: DeleteTopicsAskView) -> Seq<Seq<char>> {
    if ask.topics.len() == 0 {
        ask.topic_names
    } else {
        named(ask.topics)
    }
}

/// What DeleteTopics does and answers.
pub open spec fn spec_delete_topics(
    state: ClusterView,
    ask: DeleteTopicsAskView,
    faults: Seq<Fault>,
) -> (ClusterView, DeleteTopicsReplyView) {
    let (after, responses) = delete_all(state, doomed(ask), faults);
    (after, DeleteTopicsReplyView { responses })
}

fn drop_logs(state: &mut ClusterState, name: &String)
    ensures
        final(state)@ == (ClusterView {
            logs: without_topic(old(state)@.logs, name@),
            ..old(state)@
        }),
{
    let keys = state.logs.keys();
    let ghost start = state@;
    let mut i: usize = 0;
    while i < keys.len()
        invariant
            i <= keys@.len(),
            start == old(state)@,
            state@ == (ClusterView { logs: state@.logs, ..start }),
            forall|key: (Seq<char>, i32)|
                start.logs.contains_key(key) ==> exists|k: int|
                    0 <= k < keys@.len() && (#[trigger] keys@[k])@ == key,
            forall|key: (Seq<char>, i32)|
                #![trigger state@.logs.contains_key(key)]
                state@.logs.contains_key(key) <==> start.logs.contains_key(key) && !(key.0 == name@
                    && exists|k: int| 0 <= k < i && (#[trigger] keys@[k])@ == key),
            forall|key: (Seq<char>, i32)|
                state@.logs.contains_key(key) ==> #[trigger] state@.logs[key] == start.logs[key],
        decreases keys@.len() - i,
    {
        let ghost before = state@.logs;
        let ghost here = keys@[i as int]@;
        if same_text(keys[i].0.as_str(), name.as_str()) {
            state.logs.remove(&keys[i]);
        }
        proof {
            assert forall|key: (Seq<char>, i32)|
                #![trigger state@.logs.contains_key(key)]
                state@.logs.contains_key(key) <==> start.logs.contains_key(key) && !(key.0 == name@
                    && exists|k: int| 0 <= k < i + 1 && (#[trigger] keys@[k])@ == key) by {
                assert(before.contains_key(key) <==> start.logs.contains_key(key) && !(key.0
                    == name@ && exists|k: int| 0 <= k < i && (#[trigger] keys@[k])@ == key));
                if key == here {
                    assert(keys@[i as int]@ == key);
                }
            }
        }
        i = i + 1;
    }
    assert(state@.logs =~= without_topic(start.logs, name@));
}

fn delete_one(state: &mut ClusterState, name: &String, faults: &Vec<Fault>) -> (r: DeletedTopic)
    ensures
        r@ == spec_deleted(old(state)@, name@),
        final(state)@ == after_delete(old(state)@, name@, faults@),
{
    let known: Option<TopicId> = match state.created.get(name) {
        Some(id) => Some(*id),
        None => None,
    };
    let error_code: i16 = match known {
        Some(id) => {
            if !injected(faults, Fault::DeleteTopicsKeepsTheTopic) {
                state.created.remove(name);
                state.topic_names.remove(&id);
                drop_logs(state, name);
            }
            NONE
        },
        None => UNKNOWN_TOPIC_OR_PARTITION,
    };
    DeletedTopic { name: Some(name.clone()), error_code }
}

/// Answers DeleteTopics: what is deleted stops existing.
pub fn delete_topics(state: &mut ClusterState, ask: &DeleteTopicsAsk, faults: &Vec<Fault>) -> (r:
    DeleteTopicsReply)
    ensures
        (final(state)@, r@) == spec_delete_topics(old(state)@, ask@, faults@),
{
    let by_state: Vec<String> = names_of(&ask.topics);
    let names: &Vec<String> = if ask.topics.len() == 0 {
        &ask.topic_names
    } else {
        &by_state
    };
    let ghost start = state@;
    let ghost all = text::views(names@);
    let mut responses: Vec<DeletedTopic> = Vec::new();
    let mut i: usize = 0;
    assert(responses@.map_values(|row: DeletedTopic| row@) =~= Seq::empty());
    while i < names.len()
        invariant
            i <= names@.len(),
            start == old(state)@,
            all == text::views(names@),
            (state@, responses@.map_values(|row: DeletedTopic| row@)) == delete_all(
                start,
                all.take(i as int),
                faults@,
            ),
        decreases names@.len() - i,
    {
        let ghost before = responses@.map_values(|row: DeletedTopic| row@);
        assert(all.take(i + 1).drop_last() =~= all.take(i as int));
        assert(all[i as int] == names@[i as int]@);
        let gone = delete_one(state, &names[i], faults);
        let ghost seen = gone@;
        responses.push(gone);
        assert(responses@.map_values(|row: DeletedTopic| row@) =~= before.push(seen));
        i = i + 1;
    }
    assert(all.take(i as int) =~= all);
    DeleteTopicsReply { responses }
}

} // verus!

//! Checks on what the brokers of a cluster must agree on, and on what must
//! survive the loss of one.

use vstd::prelude::*;
use vstd::string::*;

use crate::checks::asks;
use crate::checks::batch;
use crate::checks::batch::ProduceStampOf;
use crate::checks::ctx;
use crate::checks::ctx::ServerCtx;
use crate::checks::find;
use crate::checks::flows;
use crate::checks::flows::{Addressing, ProducedTopic, ProducedView, PRODUCE_NAME_MAX};
use crate::checks::group_flows;
use crate::checks::server_groups;
use crate::checks::tape;
use crate::checks::tape::{
    doing, doing_ref, error, fail, skip, ActionOf, CheckError, ErrorView, Event, Flow, FlowView,
    Halt, HaltView, Label,
};
use crate::checks::txn_flows;
use crate::text;
use crate::text::{contains_text, line, same_text};
use crate::wire;
use crate::wire::{
    BrokerRow, CreatedRow, ErrorCode, PartitionRow, ProducedRow, RequestOf, TopicId, CREATE_TOPICS,
    FIND_COORDINATOR, FIND_COORDINATOR_BATCHED, METADATA, PRODUCE,
};
use crate::{Verdict, VerdictView};

verus! {

/// One broker of the subject cluster, as Metadata describes it.
#[derive(Debug)]
pub struct ClusterNode {
    pub node_id: i32,
    pub addr: String,
}

#[verifier::ext_equal]
pub struct NodeView {
    pub node_id: i32,
    pub addr: Seq<char>,
}

impl View for ClusterNode {
    type V = NodeView;

    open spec fn view(&self) -> NodeView {
        NodeView { node_id: self.node_id, addr: self.addr@ }
    }
}

/// Several of them, in order.
#[derive(Debug)]
pub struct Nodes(pub Vec<ClusterNode>);

impl View for Nodes {
    type V = Seq<NodeView>;

    open spec fn view(&self) -> Seq<NodeView> {
        self.0@.map_values(|n: ClusterNode| n@)
    }
}

impl Nodes {
    pub fn none() -> (r: Nodes)
        ensures
            r@ == Seq::<NodeView>::empty(),
    {
        let nodes = Nodes(Vec::new());
        assert(nodes@ =~= Seq::empty());
        nodes
    }

    pub fn push(&mut self, node: ClusterNode)
        ensures
            final(self)@ == old(self)@.push(node@),
    {
        self.0.push(node);
        assert(self@ =~= old(self)@.push(node@));
    }
}

/// The brokers of an answer that can be reached, in its order.
pub open spec fn nodes_in(brokers: Seq<BrokerRow>) -> Seq<NodeView>
    decreases brokers.len(),
{
    if brokers.len() == 0 {
        Seq::empty()
    } else {
        let b = brokers.last();
        let rest = nodes_in(brokers.drop_last());
        if find::reachable(b.host@, b.port) {
            rest.push(NodeView { node_id: b.node_id, addr: find::endpoint(b.host@, b.port) })
        } else {
            rest
        }
    }
}

fn nodes_of(brokers: &Vec<BrokerRow>) -> (r: Nodes)
    ensures
        r@ == nodes_in(brokers@),
{
    let mut nodes = Nodes::none();
    let mut i: usize = 0;
    while i < brokers.len()
        invariant
            i <= brokers@.len(),
            nodes@ == nodes_in(brokers@.take(i as int)),
        decreases brokers@.len() - i,
    {
        assert(brokers@.take(i + 1).drop_last() =~= brokers@.take(i as int));
        let b = &brokers[i];
        if find::is_reachable(&b.host, b.port) {
            nodes.push(
                ClusterNode { node_id: b.node_id, addr: find::endpoint_text(&b.host, b.port) },
            );
        }
        i = i + 1;
    }
    assert(brokers@.take(i as int) =~= brokers@);
    nodes
}

/// A borrowed node, or none, in specifications.
pub open spec fn met(r: Option<&ClusterNode>) -> Option<NodeView> {
    match r {
        Some(n) => Some(n@),
        None => None,
    }
}

pub open spec fn with_id(node_id: i32) -> spec_fn(NodeView) -> bool {
    |n: NodeView| n.node_id == node_id
}

pub open spec fn without_id(node_id: i32) -> spec_fn(NodeView) -> bool {
    |n: NodeView| n.node_id != node_id
}

pub open spec fn placed_at(addr: Seq<char>) -> spec_fn(NodeView) -> bool {
    |n: NodeView| n.addr == addr
}

pub open spec fn placed_elsewhere(addr: Seq<char>) -> spec_fn(NodeView) -> bool {
    |n: NodeView| n.addr != addr
}

fn node_with(nodes: &Nodes, node_id: i32) -> (r: Option<&ClusterNode>)
    ensures
        met(r) == find::first_where(nodes@, with_id(node_id)),
{
    let mut i: usize = 0;
    assert(nodes@.skip(0) =~= nodes@);
    while i < nodes.0.len()
        invariant
            i <= nodes@.len(),
            find::first_where(nodes@, with_id(node_id)) == find::first_where(
                nodes@.skip(i as int),
                with_id(node_id),
            ),
        decreases nodes@.len() - i,
    {
        assert(nodes@.skip(i as int).skip(1) =~= nodes@.skip(i + 1));
        if nodes.0[i].node_id == node_id {
            return Some(&nodes.0[i]);
        }
        i = i + 1;
    }
    None
}

fn node_without(nodes: &Nodes, node_id: i32) -> (r: Option<&ClusterNode>)
    ensures
        met(r) == find::first_where(nodes@, without_id(node_id)),
{
    let mut i: usize = 0;
    assert(nodes@.skip(0) =~= nodes@);
    while i < nodes.0.len()
        invariant
            i <= nodes@.len(),
            find::first_where(nodes@, without_id(node_id)) == find::first_where(
                nodes@.skip(i as int),
                without_id(node_id),
            ),
        decreases nodes@.len() - i,
    {
        assert(nodes@.skip(i as int).skip(1) =~= nodes@.skip(i + 1));
        if nodes.0[i].node_id != node_id {
            return Some(&nodes.0[i]);
        }
        i = i + 1;
    }
    None
}

fn node_at<'a>(nodes: &'a Nodes, addr: &str) -> (r: Option<&'a ClusterNode>)
    ensures
        met(r) == find::first_where(nodes@, placed_at(addr@)),
{
    let mut i: usize = 0;
    assert(nodes@.skip(0) =~= nodes@);
    while i < nodes.0.len()
        invariant
            i <= nodes@.len(),
            find::first_where(nodes@, placed_at(addr@)) == find::first_where(
                nodes@.skip(i as int),
                placed_at(addr@),
            ),
        decreases nodes@.len() - i,
    {
        assert(nodes@.skip(i as int).skip(1) =~= nodes@.skip(i + 1));
        if same_text(nodes.0[i].addr.as_str(), addr) {
            return Some(&nodes.0[i]);
        }
        i = i + 1;
    }
    None
}

fn node_elsewhere<'a>(nodes: &'a Nodes, addr: &str) -> (r: Option<&'a ClusterNode>)
    ensures
        met(r) == find::first_where(nodes@, placed_elsewhere(addr@)),
{
    let mut i: usize = 0;
    assert(nodes@.skip(0) =~= nodes@);
    while i < nodes.0.len()
        invariant
            i <= nodes@.len(),
            find::first_where(nodes@, placed_elsewhere(addr@)) == find::first_where(
                nodes@.skip(i as int),
                placed_elsewhere(addr@),
            ),
        decreases nodes@.len() - i,
    {
        assert(nodes@.skip(i as int).skip(1) =~= nodes@.skip(i + 1));
        if !same_text(nodes.0[i].addr.as_str(), addr) {
            return Some(&nodes.0[i]);
        }
        i = i + 1;
    }
    None
}

/// The nodes' ids, in order.
pub open spec fn ids_in(nodes: Seq<NodeView>) -> Seq<i32> {
    nodes.map_values(|n: NodeView| n.node_id)
}

fn ids_of(nodes: &Nodes) -> (r: Vec<i32>)
    ensures
        r@ == ids_in(nodes@),
{
    let mut ids: Vec<i32> = Vec::new();
    let mut i: usize = 0;
    while i < nodes.0.len()
        invariant
            i <= nodes@.len(),
            ids@ == ids_in(nodes@).take(i as int),
        decreases nodes@.len() - i,
    {
        ids.push(nodes.0[i].node_id);
        assert(ids@ =~= ids_in(nodes@).take(i + 1));
        i = i + 1;
    }
    assert(ids_in(nodes@).take(i as int) =~= ids_in(nodes@));
    ids
}

pub open spec fn spec_cluster_nodes(ctx: ServerCtx, tape: Seq<Event>) -> FlowView<Seq<NodeView>> {
    match ctx.spec_version(
        0,
        "Metadata"@,
        METADATA,
        1,
        ctx.schema.metadata.max,
    ) {
        Err(halt) => Err(halt),
        Ok(version) => match tape::spec_connect(tape, 0, ctx.addr@) {
            Err(halt) => Err(halt),
            Ok((conn, at)) => match tape::spec_doing(
                asks::spec_ask_metadata(
                    tape,
                    at,
                    Label::Final("Metadata"@),
                    ActionOf::Call {
                        conn,
                        version,
                        correlation: 1_400,
                        request: RequestOf::Metadata { topic: None },
                    },
                ),
                "Metadata"@,
            ) {
                Err(halt) => Err(halt),
                Ok((answer, at)) => {
                    let nodes = nodes_in(answer.brokers@);
                    if nodes.len() < 2 {
                        Err(
                            tape::spec_skip(
                                "the subject reports "@ + text::dec(nodes.len() as int)
                                    + " broker(s); this check is about what brokers must agree on, which a cluster of one cannot be asked"@,
                                at,
                            ),
                        )
                    } else {
                        Ok((nodes, at))
                    }
                },
            },
        },
    }
}

/// Every broker the subject reports, or a skip when there is only one. They
/// are found through Metadata, as a client would find them.
pub fn cluster_nodes(ctx: &ServerCtx, tape: &Vec<Event>) -> (r: Flow<Nodes>)
    ensures
        tape::ran(r) == spec_cluster_nodes(*ctx, tape@),
{
    let version: i16 = ctx.version(0, "Metadata", METADATA, 1, ctx.schema.metadata.max)?;
    let (conn, at) = tape::connect(tape, 0, ctx.addr.as_str())?;
    let (answer, at) = doing_ref(
        asks::ask_metadata(
            tape,
            at,
            Label::Final("Metadata"),
            ActionOf::Call {
                conn,
                version,
                correlation: 1_400,
                request: RequestOf::Metadata { topic: None },
            },
        ),
        "Metadata",
    )?;
    let nodes = nodes_of(&answer.brokers);
    if nodes.0.len() < 2 {
        return Err(
            skip(
                line("the subject reports ").count(nodes.0.len() as u128)
                    .lit(" broker(s); this check is about what brokers must agree on, which a cluster of one cannot be asked")
                    .done(),
                at,
            ),
        );
    }
    Ok((nodes, at))
}

pub open spec fn spec_leadership_at(
    tape: Seq<Event>,
    at: int,
    conn: usize,
    version: i16,
    topic: Seq<char>,
    correlation: i32,
) -> FlowView<Option<PartitionRow>> {
    match flows::spec_metadata(
        tape,
        at,
        conn,
        version,
        Some(topic),
        correlation,
    ) {
        Err(halt) => Err(halt),
        Ok((answer, at)) => Ok((find::sound_partition(answer, topic), at)),
    }
}

/// Partition 0 of a topic as Metadata at `conn` describes it, where it is
/// sound.
pub fn leadership_at<'a>(
    tape: &'a Vec<Event>,
    at: usize,
    conn: usize,
    version: i16,
    topic: &str,
    correlation: i32,
) -> (r: Flow<Option<&'a PartitionRow>>)
    ensures
        txn_flows::read_opt(r) == spec_leadership_at(
            tape@,
            at as int,
            conn,
            version,
            topic@,
            correlation,
        ),
{
    let (answer, at) = flows::metadata_of_topic(tape, at, conn, version, topic, correlation)?;
    Ok((find::partition_zero(answer, topic), at))
}

/// Waiting for a leader, from the given attempt on.
pub open spec fn spec_settle_leadership(
    ctx: ServerCtx,
    tape: Seq<Event>,
    at: int,
    conn: usize,
    version: i16,
    topic: Seq<char>,
    base: i32,
    attempt: int,
) -> FlowView<PartitionRow>
    decreases ctx.config.spec_settle_attempts() - attempt,
{
    if attempt >= ctx.config.spec_settle_attempts() {
        Err(
            tape::spec_error(
                topic + " was created but never given a leader within the settle budget"@,
                at,
            ),
        )
    } else {
        match tape::spec_pause_between(tape, at, attempt) {
            Err(halt) => Err(halt),
            Ok((_, at)) => match tape::spec_doing(
                spec_leadership_at(
                    tape,
                    at,
                    conn,
                    version,
                    topic,
                    ctx::spec_correlation(base, attempt),
                ),
                "Metadata"@,
            ) {
                Err(halt) => Err(halt),
                Ok((seen, at)) => match seen {
                    None => spec_settle_leadership(
                            ctx,
                            tape,
                            at,
                            conn,
                            version,
                            topic,
                            base,
                            attempt + 1,
                        ),
                    Some(row) => if row.leader_id >= 0 {
                        Ok((row, at))
                    } else {
                        spec_settle_leadership(
                            ctx,
                            tape,
                            at,
                            conn,
                            version,
                            topic,
                            base,
                            attempt + 1,
                        )
                    },
                },
            },
        }
    }
}

/// Waits for a freshly created topic to have a leader.
fn settle_leadership<'a>(
    ctx: &ServerCtx,
    tape: &'a Vec<Event>,
    at: usize,
    conn: usize,
    version: i16,
    topic: &str,
    base: i32,
) -> (r: Flow<&'a PartitionRow>)
    ensures
        tape::read(r) == spec_settle_leadership(
            *ctx,
            tape@,
            at as int,
            conn,
            version,
            topic@,
            base,
            0,
        ),
{
    let bound: u32 = ctx.config.settle_attempts();
    let mut here: usize = at;
    let mut attempt: u32 = 0;
    while attempt < bound
        invariant
            attempt <= bound,
            bound == ctx.config.spec_settle_attempts(),
            spec_settle_leadership(*ctx, tape@, at as int, conn, version, topic@, base, 0) == spec_settle_leadership(
                *ctx,
                tape@,
                here as int,
                conn,
                version,
                topic@,
                base,
                attempt as int,
            ),
        decreases bound - attempt,
    {
        let (_, next) = tape::pause_between(tape, here, attempt)?;
        let (seen, next) = txn_flows::doing_opt(
            leadership_at(tape, next, conn, version, topic, ctx::correlation(base, attempt)),
            "Metadata",
        )?;
        let row = match seen {
            None => {
                    here = next;
                    attempt = attempt + 1;
                    continue;
            },
            Some(found) => found,
        };
        if row.leader_id >= 0 {
            return Ok((row, next));
        }
        here = next;
        attempt = attempt + 1;
    }
    Err(
        error(
            line(topic).lit(" was created but never given a leader within the settle budget")
                .done(),
            here,
        ),
    )
}

/// Waiting for a description, from the given attempt on.
pub open spec fn spec_await_described(
    ctx: ServerCtx,
    tape: Seq<Event>,
    at: int,
    conn: usize,
    version: i16,
    topic: Seq<char>,
    base: i32,
    attempt: int,
) -> FlowView<PartitionRow>
    decreases ctx.config.spec_settle_attempts() - attempt,
{
    if attempt >= ctx.config.spec_settle_attempts() {
        Err(
            tape::spec_error(
                topic + " was created but never described within the settle budget"@,
                at,
            ),
        )
    } else {
        match tape::spec_pause_between(tape, at, attempt) {
            Err(halt) => Err(halt),
            Ok((_, at)) => match tape::spec_doing(
                spec_leadership_at(
                    tape,
                    at,
                    conn,
                    version,
                    topic,
                    ctx::spec_correlation(base, attempt),
                ),
                "Metadata"@,
            ) {
                Err(halt) => Err(halt),
                Ok((seen, at)) => match seen {
                    None => spec_await_described(
                            ctx,
                            tape,
                            at,
                            conn,
                            version,
                            topic,
                            base,
                            attempt + 1,
                        ),
                    Some(row) => Ok((row, at)),
                },
            },
        }
    }
}

/// Waits for a freshly created topic to be described.
fn await_described<'a>(
    ctx: &ServerCtx,
    tape: &'a Vec<Event>,
    at: usize,
    conn: usize,
    version: i16,
    topic: &str,
    base: i32,
) -> (r: Flow<&'a PartitionRow>)
    ensures
        tape::read(r) == spec_await_described(
            *ctx,
            tape@,
            at as int,
            conn,
            version,
            topic@,
            base,
            0,
        ),
{
    let bound: u32 = ctx.config.settle_attempts();
    let mut here: usize = at;
    let mut attempt: u32 = 0;
    while attempt < bound
        invariant
            attempt <= bound,
            bound == ctx.config.spec_settle_attempts(),
            spec_await_described(*ctx, tape@, at as int, conn, version, topic@, base, 0) == spec_await_described(
                *ctx,
                tape@,
                here as int,
                conn,
                version,
                topic@,
                base,
                attempt as int,
            ),
        decreases bound - attempt,
    {
        let (_, next) = tape::pause_between(tape, here, attempt)?;
        let (seen, next) = txn_flows::doing_opt(
            leadership_at(tape, next, conn, version, topic, ctx::correlation(base, attempt)),
            "Metadata",
        )?;
        let row = match seen {
            None => {
                    here = next;
                    attempt = attempt + 1;
                    continue;
            },
            Some(found) => found,
        };
        return Ok((row, next));
    }
    Err(
        error(
            line(topic).lit(" was created but never described within the settle budget").done(),
            here,
        ),
    )
}

/// The code of a created topic that was refused: an answer that names no
/// topic counts as acceptance.
pub open spec fn spec_creation_refused(rows: Seq<CreatedRow>) -> Option<ErrorCode> {
    match find::head(rows) {
        Some(row) => if row.error.ok() { None } else { Some(row.error) },
        None => None,
    }
}

fn creation_refused(rows: &Vec<CreatedRow>) -> (r: Option<&ErrorCode>)
    ensures
        find::found(r) == spec_creation_refused(rows@),
{
    match find::first(rows) {
        Some(row) => if row.error.is_ok() {
            None
        } else {
            Some(&row.error)
        },
        None => None,
    }
}

pub open spec fn spec_create_replicated_topic(
    ctx: ServerCtx,
    tape: Seq<Event>,
    at: int,
    conn: usize,
    topic: Seq<char>,
    replicas: i16,
    correlation: i32,
) -> FlowView<()> {
    match ctx.spec_version(
        at,
        "CreateTopics"@,
        CREATE_TOPICS,
        ctx.schema.create_topics.min,
        ctx.schema.create_topics.max,
    ) {
        Err(halt) => Err(halt),
        Ok(version) => match tape::spec_doing(
            flows::spec_admin_conn(ctx, tape, at, conn, correlation.wrapping_sub(1)),
            "locating the controller"@,
        ) {
            Err(halt) => Err(halt),
            Ok((controller, at)) => match tape::spec_doing(
                asks::spec_ask_create_topics(
                    tape,
                    at,
                    Label::Final("CreateTopics"@),
                    ActionOf::Call {
                        conn: controller,
                        version,
                        correlation,
                        request: RequestOf::CreateTopics {
                            topic: topic,
                            replication_factor: replicas,
                            validate_only: false,
                        },
                    },
                ),
                "CreateTopics"@,
            ) {
                Err(halt) => Err(halt),
                Ok((rows, at)) => match spec_creation_refused(rows@) {
                    Some(code) => Err(
                            tape::spec_skip(
                                "the subject would not create a "@ + text::dec(replicas as int)
                                    + "-replica topic: "@ + code.shown@,
                                at,
                            ),
                        ),
                    None => Ok(((), at)),
                },
            },
        },
    }
}

/// Creates a single-partition topic with so many replicas.
fn create_replicated_topic(
    ctx: &ServerCtx,
    tape: &Vec<Event>,
    at: usize,
    conn: usize,
    topic: &String,
    replicas: i16,
    correlation: i32,
) -> (r: Flow<()>)
    ensures
        tape::ran(r) == spec_create_replicated_topic(
            *ctx,
            tape@,
            at as int,
            conn,
            topic@,
            replicas,
            correlation,
        ),
{
    let version: i16 = ctx.version(
        at,
        "CreateTopics",
        CREATE_TOPICS,
        ctx.schema.create_topics.min,
        ctx.schema.create_topics.max,
    )?;
    let (controller, at) = doing(
        flows::admin_conn(ctx, tape, at, conn, correlation.wrapping_sub(1)),
        "locating the controller",
    )?;
    let (rows, at) = doing_ref(
        asks::ask_create_topics(
            tape,
            at,
            Label::Final("CreateTopics"),
            ActionOf::Call {
                conn: controller,
                version,
                correlation,
                request: RequestOf::CreateTopics {
                    topic: topic.clone(),
                    replication_factor: replicas,
                    validate_only: false,
                },
            },
        ),
        "CreateTopics",
    )?;
    match creation_refused(rows) {
        Some(code) => {
            Err(
                skip(
                    line("the subject would not create a ").num(replicas as i64)
                        .lit("-replica topic: ").lit(code.shown.as_str()).done(),
                    at,
                ),
            )
        },
        None => {
            Ok(((), at))
        },
    }
}

/// What the brokers from the `i`th on say, after what the earlier ones said.
pub open spec fn spec_leader_answers(
    ctx: ServerCtx,
    tape: Seq<Event>,
    at: int,
    version: i16,
    topic: Seq<char>,
    nodes: Seq<NodeView>,
    i: int,
    answers: Seq<(i32, i32)>,
) -> FlowView<Seq<(i32, i32)>>
    decreases nodes.len() - i,
{
    if i >= nodes.len() {
        Ok((answers, at))
    } else {
        let node = nodes[i];
        match tape::spec_doing(
            tape::spec_connect(tape, at, node.addr),
            "connecting to node "@ + text::dec(node.node_id as int),
        ) {
            Err(halt) => Err(halt),
            Ok((conn, at)) => match group_flows::spec_await_topic_known(
                ctx,
                tape,
                at,
                conn,
                topic,
                ctx::spec_correlation(1_410, i),
            ) {
                Err(halt) => Err(halt),
                Ok((_, at)) => match tape::spec_doing(
                    spec_leadership_at(
                        tape,
                        at,
                        conn,
                        version,
                        topic,
                        ctx::spec_correlation(1_510, i),
                    ),
                    "Metadata at node "@ + text::dec(node.node_id as int),
                ) {
                    Err(halt) => Err(halt),
                    Ok((seen, at)) => match seen {
                        None => spec_leader_answers(
                                ctx,
                                tape,
                                at,
                                version,
                                topic,
                                nodes,
                                i + 1,
                                answers,
                            ),
                        Some(row) => spec_leader_answers(
                            ctx,
                            tape,
                            at,
                            version,
                            topic,
                            nodes,
                            i + 1,
                            answers.push((node.node_id, row.leader_id)),
                        ),
                    },
                },
            },
        }
    }
}

/// Asks every broker who leads the topic. A broker that has not heard of it
/// has not disagreed; it has not answered.
fn leader_answers(
    ctx: &ServerCtx,
    tape: &Vec<Event>,
    at: usize,
    version: i16,
    topic: &str,
    nodes: &Nodes,
) -> (r: Flow<Vec<(i32, i32)>>)
    ensures
        tape::ran(r) == spec_leader_answers(
            *ctx,
            tape@,
            at as int,
            version,
            topic@,
            nodes@,
            0,
            Seq::empty(),
        ),
{
    let bound: usize = nodes.0.len();
    let mut answers: Vec<(i32, i32)> = Vec::new();
    let mut here: usize = at;
    let mut i: usize = 0;
    while i < bound
        invariant
            i <= bound,
            bound == nodes@.len(),
            spec_leader_answers(*ctx, tape@, at as int, version, topic@, nodes@, 0, Seq::empty()) == spec_leader_answers(
                *ctx,
                tape@,
                here as int,
                version,
                topic@,
                nodes@,
                i as int,
                answers@,
            ),
        decreases bound - i,
    {
        let node = &nodes.0[i];
        let (conn, next) = doing(
            tape::connect(tape, here, node.addr.as_str()),
            line("connecting to node ").num(node.node_id as i64).done().as_str(),
        )?;
        let (_, next) = group_flows::await_topic_known(
            ctx,
            tape,
            next,
            conn,
            topic,
            ctx::nth_correlation(1_410, i),
        )?;
        let (seen, next) = txn_flows::doing_opt(
            leadership_at(tape, next, conn, version, topic, ctx::nth_correlation(1_510, i)),
            line("Metadata at node ").num(node.node_id as i64).done().as_str(),
        )?;
        let row = match seen {
            None => {
                    here = next;
                    i = i + 1;
                    continue;
            },
            Some(found) => found,
        };
        answers.push((node.node_id, row.leader_id));
        here = next;
        i = i + 1;
    }
    Ok((answers, here))
}

/// An answer that names another leader than the given one.
pub open spec fn other_leader(leader: i32) -> spec_fn((i32, i32)) -> bool {
    |a: (i32, i32)| a.1 != leader
}

fn first_other_leader(answers: &Vec<(i32, i32)>, leader: i32) -> (r: Option<(i32, i32)>)
    ensures
        r == find::first_where(answers@, other_leader(leader)),
{
    let mut i: usize = 0;
    assert(answers@.skip(0) =~= answers@);
    while i < answers.len()
        invariant
            i <= answers@.len(),
            find::first_where(answers@, other_leader(leader)) == find::first_where(
                answers@.skip(i as int),
                other_leader(leader),
            ),
        decreases answers@.len() - i,
    {
        assert(answers@.skip(i as int).skip(1) =~= answers@.skip(i + 1));
        if answers[i].1 != leader {
            return Some(answers[i]);
        }
        i = i + 1;
    }
    None
}

/// Who leads, by those who said: they must all have said the same.
pub open spec fn spec_judge_agreement(answers: Seq<(i32, i32)>, topic: Seq<char>) -> VerdictView {
    if answers.len() < 2 {
        VerdictView::Skipped(
            "only "@ + text::dec(answers.len() as int) + " broker(s) could describe "@ + topic
                + " within the settle budget, so there is no disagreement to detect"@,
        )
    } else {
        match find::first_where(answers, other_leader(answers[0].1)) {
            Some((node_id, leader)) => VerdictView::Fail(
                "brokers disagree about who leads "@ + topic + "[0]: node "@ + text::dec(
                    node_id as int,
                ) + " says "@ + text::dec(leader as int) + ", node "@ + text::dec(
                    answers[0].0 as int,
                ) + " says "@ + text::dec(answers[0].1 as int)
                    + ". Two clients refreshing metadata against different brokers would write to different leaders"@,
            ),
            None => VerdictView::Pass,
        }
    }
}

pub fn judge_agreement(answers: &Vec<(i32, i32)>, topic: &str) -> (r: Verdict)
    ensures
        r@ == spec_judge_agreement(answers@, topic@),
{
    if answers.len() < 2 {
        return Verdict::Skipped {
            reason: line("only ").count(answers.len() as u128).lit(
                " broker(s) could describe ",
            ).lit(topic).lit(
                " within the settle budget, so there is no disagreement to detect",
            ).done(),
        };
    }
    let (node, leader) = answers[0];
    match first_other_leader(answers, leader) {
        Some((other, says)) => Verdict::Fail {
            details: line("brokers disagree about who leads ").lit(topic).lit("[0]: node ").num(
                other as i64,
            ).lit(" says ").num(says as i64).lit(", node ").num(node as i64).lit(" says ").num(
                leader as i64,
            ).lit(
                ". Two clients refreshing metadata against different brokers would write to different leaders",
            ).done(),
        },
        None => Verdict::Pass,
    }
}

pub open spec fn spec_cluster_brokers_agree_on_the_leader(
    ctx: ServerCtx,
    tape: Seq<Event>,
) -> FlowView<VerdictView> {
    match spec_cluster_nodes(ctx, tape) {
        Err(halt) => Err(halt),
        Ok((nodes, at)) => match ctx.spec_version(
            at,
            "Metadata"@,
            METADATA,
            1,
            ctx.schema.metadata.max,
        ) {
            Err(halt) => Err(halt),
            Ok(version) => match flows::spec_produce_flow(
                ctx,
                tape,
                at,
                "agreeleader"@,
                Addressing::Name,
            ) {
                Err(halt) => Err(halt),
                Ok((produced, at)) => match spec_leader_answers(
                    ctx,
                    tape,
                    at,
                    version,
                    produced.topic,
                    nodes,
                    0,
                    Seq::empty(),
                ) {
                    Err(halt) => Err(halt),
                    Ok((answers, at)) => {
                        Ok((spec_judge_agreement(answers, produced.topic), at))
                    },
                },
            },
        },
    }
}

/// Names the same leader at every broker: a partition with two writers has
/// two histories.
pub fn cluster_brokers_agree_on_the_leader(
    ctx: &ServerCtx,
    tape: &Vec<Event>,
) -> (r: Flow<Verdict>)
    ensures
        tape::ran(r) == spec_cluster_brokers_agree_on_the_leader(*ctx, tape@),
{
    let (nodes, at) = cluster_nodes(ctx, tape)?;
    let version: i16 = ctx.version(at, "Metadata", METADATA, 1, ctx.schema.metadata.max)?;
    let (produced, at) = flows::produce_flow(ctx, tape, at, "agreeleader", Addressing::Name)?;
    let (answers, at) = leader_answers(ctx, tape, at, version, produced.topic.as_str(), &nodes)?;
    Ok((judge_agreement(&answers, produced.topic.as_str()), at))
}

/// What the brokers from the `i`th on say, after what the earlier ones said.
pub open spec fn spec_coordinator_answers(
    ctx: ServerCtx,
    tape: Seq<Event>,
    at: int,
    version: i16,
    group: Seq<char>,
    nodes: Seq<NodeView>,
    i: int,
    answers: Seq<NodeView>,
) -> FlowView<Seq<NodeView>>
    decreases nodes.len() - i,
{
    if i >= nodes.len() {
        Ok((answers, at))
    } else {
        let node = nodes[i];
        match tape::spec_doing(
            tape::spec_connect(tape, at, node.addr),
            "connecting to node "@ + text::dec(node.node_id as int),
        ) {
            Err(halt) => Err(halt),
            Ok((conn, at)) => match tape::spec_doing(
                asks::spec_ask_find_coordinator(
                    tape,
                    at,
                    Label::Final("FindCoordinator"@),
                    ActionOf::Call {
                        conn,
                        version,
                        correlation: ctx::spec_correlation(1_430, i),
                        request: RequestOf::FindCoordinator {
                            key_type: 0,
                            key: group,
                            batched: version >= FIND_COORDINATOR_BATCHED,
                        },
                    },
                ),
                "FindCoordinator at node "@ + text::dec(node.node_id as int),
            ) {
                Err(halt) => Err(halt),
                Ok((answer, at)) => if find::coordinator_settling(answer, version) {
                    spec_coordinator_answers(ctx, tape, at, version, group, nodes, i + 1, answers)
                } else {
                    match find::spec_coordinator_endpoint(answer, version) {
                        None => spec_coordinator_answers(
                                ctx,
                                tape,
                                at,
                                version,
                                group,
                                nodes,
                                i + 1,
                                answers,
                            ),
                        Some(place) => spec_coordinator_answers(
                            ctx,
                            tape,
                            at,
                            version,
                            group,
                            nodes,
                            i + 1,
                            answers.push(NodeView { node_id: node.node_id, addr: place }),
                        ),
                    }
                },
            },
        }
    }
}

/// Asks every broker who coordinates the group, leaving out those that are
/// still settling.
fn coordinator_answers(
    ctx: &ServerCtx,
    tape: &Vec<Event>,
    at: usize,
    version: i16,
    group: &String,
    nodes: &Nodes,
) -> (r: Flow<Nodes>)
    ensures
        tape::ran(r) == spec_coordinator_answers(
            *ctx,
            tape@,
            at as int,
            version,
            group@,
            nodes@,
            0,
            Seq::empty(),
        ),
{
    let bound: usize = nodes.0.len();
    let mut answers: Nodes = Nodes::none();
    let mut here: usize = at;
    let mut i: usize = 0;
    while i < bound
        invariant
            i <= bound,
            bound == nodes@.len(),
            spec_coordinator_answers(*ctx, tape@, at as int, version, group@, nodes@, 0, Seq::empty()) == spec_coordinator_answers(
                *ctx,
                tape@,
                here as int,
                version,
                group@,
                nodes@,
                i as int,
                answers@,
            ),
        decreases bound - i,
    {
        let node = &nodes.0[i];
        let (conn, next) = doing(
            tape::connect(tape, here, node.addr.as_str()),
            line("connecting to node ").num(node.node_id as i64).done().as_str(),
        )?;
        let (answer, next) = doing_ref(
            asks::ask_find_coordinator(
                tape,
                next,
                Label::Final("FindCoordinator"),
                ActionOf::Call {
                    conn,
                    version,
                    correlation: ctx::nth_correlation(1_430, i),
                    request: RequestOf::FindCoordinator {
                        key_type: 0,
                        key: group.clone(),
                        batched: version >= FIND_COORDINATOR_BATCHED,
                    },
                },
            ),
            line("FindCoordinator at node ").num(node.node_id as i64).done().as_str(),
        )?;
        if find::still_settling(answer, version) {
            here = next;
            i = i + 1;
            continue;
        }
        let place = match find::coordinator_endpoint(answer, version) {
            None => {
                    here = next;
                    i = i + 1;
                    continue;
            },
            Some(found) => found,
        };
        answers.push(ClusterNode { node_id: node.node_id, addr: place });
        here = next;
        i = i + 1;
    }
    Ok((answers, here))
}

/// Who coordinates, by those who said: they must all have said the same.
pub open spec fn spec_judge_coordinators(answers: Seq<NodeView>, group: Seq<char>) -> VerdictView {
    if answers.len() < 2 {
        VerdictView::Skipped(
            "only "@ + text::dec(answers.len() as int) + " broker(s) named a coordinator for "@
                + group + ", so there is no disagreement to detect"@,
        )
    } else {
        match find::first_where(answers, placed_elsewhere(answers[0].addr)) {
            Some(other) => VerdictView::Fail(
                "brokers disagree about who coordinates "@ + group + ": node "@ + text::dec(
                    other.node_id as int,
                ) + " says "@ + other.addr + ", node "@ + text::dec(answers[0].node_id as int)
                    + " says "@ + answers[0].addr
                    + ". The group's offsets would be split across brokers by which one each member asked"@,
            ),
            None => VerdictView::Pass,
        }
    }
}

pub fn judge_coordinators(answers: &Nodes, group: &str) -> (r: Verdict)
    ensures
        r@ == spec_judge_coordinators(answers@, group@),
{
    if answers.0.len() < 2 {
        return Verdict::Skipped {
            reason: line("only ").count(answers.0.len() as u128).lit(
                " broker(s) named a coordinator for ",
            ).lit(group).lit(", so there is no disagreement to detect").done(),
        };
    }
    let first = &answers.0[0];
    match node_elsewhere(answers, first.addr.as_str()) {
        Some(other) => Verdict::Fail {
            details: line("brokers disagree about who coordinates ").lit(group).lit(
                ": node ",
            ).num(other.node_id as i64).lit(" says ").lit(other.addr.as_str()).lit(
                ", node ",
            ).num(first.node_id as i64).lit(" says ").lit(first.addr.as_str()).lit(
                ". The group's offsets would be split across brokers by which one each member asked",
            ).done(),
        },
        None => Verdict::Pass,
    }
}

pub open spec fn spec_cluster_brokers_agree_on_the_coordinator(
    ctx: ServerCtx,
    tape: Seq<Event>,
) -> FlowView<VerdictView> {
    match spec_cluster_nodes(ctx, tape) {
        Err(halt) => Err(halt),
        Ok((nodes, at)) => match ctx.spec_version(
            at,
            "FindCoordinator"@,
            FIND_COORDINATOR,
            ctx.schema.find_coordinator.min,
            ctx.schema.find_coordinator.max,
        ) {
            Err(halt) => Err(halt),
            Ok(version) => {
                let group = ctx.spec_check_group("agreecoord"@);
                match group_flows::spec_await_coordinator_at(
                    ctx,
                    tape,
                    at,
                    ctx.addr@,
                    group,
                ) {
                    Err(halt) => Err(halt),
                    Ok((_, at)) => match spec_coordinator_answers(
                        ctx,
                        tape,
                        at,
                        version,
                        group,
                        nodes,
                        0,
                        Seq::empty(),
                    ) {
                        Err(halt) => Err(halt),
                        Ok((answers, at)) => Ok((spec_judge_coordinators(answers, group), at)),
                    },
                }
            },
        },
    }
}

/// Names the same coordinator at every broker.
pub fn cluster_brokers_agree_on_the_coordinator(
    ctx: &ServerCtx,
    tape: &Vec<Event>,
) -> (r: Flow<Verdict>)
    ensures
        tape::ran(r) == spec_cluster_brokers_agree_on_the_coordinator(*ctx, tape@),
{
    let (nodes, at) = cluster_nodes(ctx, tape)?;
    let version: i16 = ctx.version(
        at,
        "FindCoordinator",
        FIND_COORDINATOR,
        ctx.schema.find_coordinator.min,
        ctx.schema.find_coordinator.max,
    )?;
    let group = ctx.check_group("agreecoord");
    let (_, at) = group_flows::await_coordinator_at(ctx, tape, at, ctx.addr.as_str(), group.as_str())?;
    let (answers, at) = coordinator_answers(ctx, tape, at, version, &group, &nodes)?;
    Ok((judge_coordinators(&answers, group.as_str()), at))
}

/// As many replicas as there are brokers, as far as the field can say.
pub open spec fn spec_replicas_for(count: int, otherwise: i16) -> i16 {
    if count <= 32_767 {
        count as i16
    } else {
        otherwise
    }
}

fn replicas_for(count: usize, otherwise: i16) -> (r: i16)
    ensures
        r == spec_replicas_for(count as int, otherwise),
{
    if count <= 32_767 {
        count as i16
    } else {
        otherwise
    }
}

/// Not one of the listed ids.
pub open spec fn unlisted(list: Seq<i32>) -> spec_fn(i32) -> bool {
    |id: i32| !list.contains(id)
}

fn first_unlisted(ids: &Vec<i32>, list: &Vec<i32>) -> (r: Option<i32>)
    ensures
        r == find::first_where(ids@, unlisted(list@)),
{
    let mut i: usize = 0;
    assert(ids@.skip(0) =~= ids@);
    while i < ids.len()
        invariant
            i <= ids@.len(),
            find::first_where(ids@, unlisted(list@)) == find::first_where(
                ids@.skip(i as int),
                unlisted(list@),
            ),
        decreases ids@.len() - i,
    {
        assert(ids@.skip(i as int).skip(1) =~= ids@.skip(i + 1));
        if !find::has_i32(list, ids[i]) {
            return Some(ids[i]);
        }
        i = i + 1;
    }
    None
}

/// A partition that was asked to span every broker: its replicas are
/// distinct, as many as asked, all of them brokers; its leader is one of
/// them and so is everything in sync.
pub open spec fn spec_judge_span(
    topic: Seq<char>,
    row: PartitionRow,
    wanted: i16,
    known: Seq<i32>,
) -> VerdictView {
    let replicas = row.replicas@;
    let shown = text::int_list(text::ints_of_i32(replicas));
    if !find::all_different(replicas) {
        VerdictView::Fail(
            topic + "[0] asked for "@ + text::dec(wanted as int) + " replicas and was given "@
                + shown + " — the same broker more than once, so the copies share a disk"@,
        )
    } else if replicas.len() != wanted {
        VerdictView::Fail(
            topic + "[0] was created asking for "@ + text::dec(wanted as int)
                + " replicas and is reported on "@ + shown + "; the cluster has brokers "@
                + text::int_list(text::ints_of_i32(known)),
        )
    } else {
        match find::first_where(replicas, unlisted(known)) {
            Some(stranger) => VerdictView::Fail(
                topic + "[0] names replica "@ + text::dec(stranger as int)
                    + ", which is not one of the brokers the same cluster reports ("@
                    + text::int_list(text::ints_of_i32(known)) + ")"@,
            ),
            None => if !replicas.contains(row.leader_id) {
                VerdictView::Fail(
                    topic + "[0] is led by "@ + text::dec(row.leader_id as int)
                        + ", which is not among its replicas "@ + shown
                        + "; the leader holds a copy by definition"@,
                )
            } else {
                match find::first_where(row.isr@, unlisted(replicas)) {
                    Some(stranger) => VerdictView::Fail(
                        topic + "[0] reports "@ + text::dec(stranger as int)
                            + " in sync, which is not one of its replicas "@ + shown,
                    ),
                    None => VerdictView::Pass,
                }
            },
        }
    }
}

pub fn judge_span(topic: &str, row: &PartitionRow, wanted: i16, known: &Vec<i32>) -> (r: Verdict)
    requires
        wanted >= 0,
    ensures
        r@ == spec_judge_span(topic@, *row, wanted, known@),
{
    if !find::is_all_different(&row.replicas) {
        return Verdict::Fail {
            details: line(topic).lit("[0] asked for ").num(wanted as i64).lit(
                " replicas and was given ",
            ).nums(&row.replicas).lit(
                " — the same broker more than once, so the copies share a disk",
            ).done(),
        };
    }
    if row.replicas.len() != wanted as usize {
        return Verdict::Fail {
            details: line(topic).lit("[0] was created asking for ").num(wanted as i64).lit(
                " replicas and is reported on ",
            ).nums(&row.replicas).lit("; the cluster has brokers ").nums(known).done(),
        };
    }
    if let Some(stranger) = first_unlisted(&row.replicas, known) {
        return Verdict::Fail {
            details: line(topic).lit("[0] names replica ").num(stranger as i64).lit(
                ", which is not one of the brokers the same cluster reports (",
            ).nums(known).lit(")").done(),
        };
    }
    if !find::has_i32(&row.replicas, row.leader_id) {
        return Verdict::Fail {
            details: line(topic).lit("[0] is led by ").num(row.leader_id as i64).lit(
                ", which is not among its replicas ",
            ).nums(&row.replicas).lit("; the leader holds a copy by definition").done(),
        };
    }
    if let Some(stranger) = first_unlisted(&row.isr, &row.replicas) {
        return Verdict::Fail {
            details: line(topic).lit("[0] reports ").num(stranger as i64).lit(
                " in sync, which is not one of its replicas ",
            ).nums(&row.replicas).done(),
        };
    }
    Verdict::Pass
}

pub open spec fn spec_cluster_replicas_span_brokers(
    ctx: ServerCtx,
    tape: Seq<Event>,
) -> FlowView<VerdictView> {
    match spec_cluster_nodes(ctx, tape) {
        Err(halt) => Err(halt),
        Ok((nodes, at)) => match ctx.spec_version(
            at,
            "CreateTopics"@,
            CREATE_TOPICS,
            ctx.schema.create_topics.min,
            ctx.schema.create_topics.max,
        ) {
            Err(halt) => Err(halt),
            Ok(create_version) => match ctx.spec_version(
                at,
                "Metadata"@,
                METADATA,
                1,
                ctx.schema.metadata.max,
            ) {
                Err(halt) => Err(halt),
                Ok(metadata_version) => {
                    let known = ids_in(nodes);
                    let wanted = spec_replicas_for(nodes.len() as int, 32_767);
                    match tape::spec_connect(tape, at, ctx.addr@) {
                        Err(halt) => Err(halt),
                        Ok((conn, at)) => match ctx::spec_fresh_topic(ctx, tape, at, "spanned"@) {
                            Err(halt) => Err(halt),
                            Ok((topic, at)) => match tape::spec_doing(
                                asks::spec_ask_create_topics(
                                    tape,
                                    at,
                                    Label::Final("CreateTopics"@),
                                    ActionOf::Call {
                                        conn,
                                        version: create_version,
                                        correlation: 1_450,
                                        request: RequestOf::CreateTopics {
                                            topic: topic,
                                            replication_factor: wanted,
                                            validate_only: false,
                                        },
                                    },
                                ),
                                "CreateTopics"@,
                            ) {
                                Err(halt) => Err(halt),
                                Ok((rows, at)) => match spec_creation_refused(rows@) {
                                    Some(code) => Err(
                                            tape::spec_skip(
                                                "the subject would not create a "@
                                                    + text::dec(wanted as int)
                                                    + "-replica topic on its "@
                                                    + text::dec(nodes.len() as int) + " broker(s): "@
                                                    + code.shown@,
                                                at,
                                            ),
                                        ),
                                    None => match spec_await_described(
                                            ctx,
                                            tape,
                                            at,
                                            conn,
                                            metadata_version,
                                            topic,
                                            1_460,
                                            0,
                                        ) {
                                            Err(halt) => Err(halt),
                                            Ok((row, at)) => {
                                                Ok((spec_judge_span(topic, row, wanted, known), at))
                                            },
                                        },
                                },
                            },
                        },
                    }
                },
            },
        },
    }
}

/// Places the replicas of a partition on distinct brokers, its leader among
/// them and what is in sync drawn from them.
pub fn cluster_replicas_span_brokers(ctx: &ServerCtx, tape: &Vec<Event>) -> (r: Flow<Verdict>)
    ensures
        tape::ran(r) == spec_cluster_replicas_span_brokers(*ctx, tape@),
{
    let (nodes, at) = cluster_nodes(ctx, tape)?;
    let create_version: i16 = ctx.version(
        at,
        "CreateTopics",
        CREATE_TOPICS,
        ctx.schema.create_topics.min,
        ctx.schema.create_topics.max,
    )?;
    let metadata_version: i16 = ctx.version(at, "Metadata", METADATA, 1, ctx.schema.metadata.max)?;
    let known = ids_of(&nodes);
    let wanted: i16 = replicas_for(nodes.0.len(), 32_767);
    let (conn, at) = tape::connect(tape, at, ctx.addr.as_str())?;
    let (topic, at) = ctx::fresh_topic(ctx, tape, at, "spanned")?;
    let (rows, at) = doing_ref(
        asks::ask_create_topics(
            tape,
            at,
            Label::Final("CreateTopics"),
            ActionOf::Call {
                conn,
                version: create_version,
                correlation: 1_450,
                request: RequestOf::CreateTopics {
                    topic: topic.clone(),
                    replication_factor: wanted,
                    validate_only: false,
                },
            },
        ),
        "CreateTopics",
    )?;
    match creation_refused(rows) {
        Some(code) => {
            Err(
                skip(
                    line("the subject would not create a ").num(wanted as i64)
                        .lit("-replica topic on its ").count(nodes.0.len() as u128)
                        .lit(" broker(s): ").lit(code.shown.as_str()).done(),
                    at,
                ),
            )
        },
        None => {
            let (row, at) = await_described(ctx, tape, at, conn, metadata_version, topic.as_str(), 1_460)?;
            Ok((judge_span(topic.as_str(), row, wanted, &known), at))
        },
    }
}

/// What a write is told at a broker that does not lead.
pub open spec fn spec_judge_stray_write(
    row: ProducedRow,
    node_id: i32,
    topic: Seq<char>,
    leader: i32,
) -> VerdictView {
    if row.error.code == wire::NOT_LEADER_OR_FOLLOWER {
        VerdictView::Pass
    } else if row.error.ok() {
        VerdictView::Fail(
            "node "@ + text::dec(node_id as int) + " accepted a write to "@ + topic
                + "[0], which node "@ + text::dec(leader as int)
                + " leads; those records are in a log the leader does not have, and the producer was told nothing"@,
        )
    } else {
        VerdictView::Fail(
            "node "@ + text::dec(node_id as int) + " refused a write to "@ + topic + "[0] with "@
                + row.error.shown@
                + " rather than NOT_LEADER_OR_FOLLOWER, so the producer is not told to re-read metadata and find node "@
                + text::dec(leader as int),
        )
    }
}

pub open spec fn spec_cluster_writes_go_to_the_leader(
    ctx: ServerCtx,
    tape: Seq<Event>,
) -> FlowView<VerdictView> {
    match spec_cluster_nodes(ctx, tape) {
        Err(halt) => Err(halt),
        Ok((nodes, at)) => match ctx.spec_version(
            at,
            "Produce"@,
            PRODUCE,
            ctx.schema.produce.min,
            PRODUCE_NAME_MAX,
        ) {
            Err(halt) => Err(halt),
            Ok(produce_version) => match ctx.spec_version(
                at,
                "Metadata"@,
                METADATA,
                1,
                ctx.schema.metadata.max,
            ) {
                Err(halt) => Err(halt),
                Ok(metadata_version) => match flows::spec_produce_flow(
                    ctx,
                    tape,
                    at,
                    "notleader"@,
                    Addressing::Name,
                ) {
                    Err(halt) => Err(halt),
                    Ok((produced, at)) => match tape::spec_connect(tape, at, ctx.addr@) {
                        Err(halt) => Err(halt),
                        Ok((conn, at)) => match tape::spec_doing(
                            spec_leadership_at(
                                tape,
                                at,
                                conn,
                                metadata_version,
                                produced.topic,
                                1_470,
                            ),
                            "Metadata"@,
                        ) {
                            Err(halt) => Err(halt),
                            Ok((seen, at)) => match seen {
                                None => Err(
                                        tape::spec_error(
                                            produced.topic + " has no described leader"@,
                                            at,
                                        ),
                                    ),
                                Some(row) => {
                                    let leader = row.leader_id;
                                    match find::first_where(nodes, without_id(leader)) {
                                        None => Err(
                                                tape::spec_skip(
                                                    "every broker the subject reports is node "@
                                                        + text::dec(leader as int)
                                                        + ", so there is no non-leader to send to"@,
                                                    at,
                                                ),
                                            ),
                                        Some(other) => match tape::spec_connect(
                                            tape,
                                            at,
                                            other.addr,
                                        ) {
                                            Err(halt) => Err(halt),
                                            Ok((conn, at)) => match tape::spec_doing(
                                                txn_flows::spec_produce_stamped(
                                                    tape,
                                                    at,
                                                    conn,
                                                    produce_version,
                                                    batch::spec_plain_stamp(),
                                                    produced.topic,
                                                    1_480,
                                                ),
                                                "Produce (to a non-leader)"@,
                                            ) {
                                                Err(halt) => Err(halt),
                                                Ok((written, at)) => tape::spec_rule(
                                                    spec_judge_stray_write(
                                                        written,
                                                        other.node_id,
                                                        produced.topic,
                                                        leader,
                                                    ),
                                                    at,
                                                ),
                                            },
                                        },
                                    }
                                },
                            },
                        },
                    },
                },
            },
        },
    }
}

/// Refuses a write at a broker that does not lead the partition, and says to
/// look again.
pub fn cluster_writes_go_to_the_leader(ctx: &ServerCtx, tape: &Vec<Event>) -> (r: Flow<Verdict>)
    ensures
        tape::ran(r) == spec_cluster_writes_go_to_the_leader(*ctx, tape@),
{
    let (nodes, at) = cluster_nodes(ctx, tape)?;
    let produce_version: i16 = ctx.version(at, "Produce", PRODUCE, ctx.schema.produce.min, PRODUCE_NAME_MAX)?;
    let metadata_version: i16 = ctx.version(at, "Metadata", METADATA, 1, ctx.schema.metadata.max)?;
    let (produced, at) = flows::produce_flow(ctx, tape, at, "notleader", Addressing::Name)?;
    let (conn, at) = tape::connect(tape, at, ctx.addr.as_str())?;
    let (seen, at) = txn_flows::doing_opt(
        leadership_at(tape, at, conn, metadata_version, produced.topic.as_str(), 1_470),
        "Metadata",
    )?;
    let row = match seen {
        None => {
                return Err(
                    error(
                        line(produced.topic.as_str()).lit(" has no described leader").done(),
                        at,
                    ),
                );
        },
        Some(found) => found,
    };
    let leader: i32 = row.leader_id;
    let other = match node_without(&nodes, leader) {
        None => {
                return Err(
                    skip(
                        line("every broker the subject reports is node ").num(leader as i64)
                            .lit(", so there is no non-leader to send to").done(),
                        at,
                    ),
                );
        },
        Some(found) => found,
    };
    let (conn, at) = tape::connect(tape, at, other.addr.as_str())?;
    let (written, at) = doing_ref(
        txn_flows::produce_stamped(
            tape,
            at,
            conn,
            produce_version,
            ProduceStampOf::plain(),
            produced.topic.as_str(),
            1_480,
        ),
        "Produce (to a non-leader)",
    )?;
    if written.error.code == wire::NOT_LEADER_OR_FOLLOWER {
        return Ok((Verdict::Pass, at));
    }
    if written.error.is_ok() {
        return Err(
            fail(
                line("node ").num(other.node_id as i64).lit(" accepted a write to ")
                    .lit(produced.topic.as_str()).lit("[0], which node ").num(leader as i64)
                    .lit(" leads; those records are in a log the leader does not have, and the producer was told nothing")
                    .done(),
                at,
            ),
        );
    }
    Err(
        fail(
            line("node ").num(other.node_id as i64).lit(" refused a write to ")
                .lit(produced.topic.as_str()).lit("[0] with ").lit(written.error.shown.as_str())
                .lit(" rather than NOT_LEADER_OR_FOLLOWER, so the producer is not told to re-read metadata and find node ")
                .num(leader as i64).done(),
            at,
        ),
    )
}

/// What is made of a commit at a broker that does not coordinate the group.
/// A refusal is reported as a violation by the commit; here the right one is
/// the passing answer.
pub open spec fn spec_judge_misplaced(
    flow: FlowView<()>,
    not_coordinator: Seq<char>,
    node_id: i32,
    group: Seq<char>,
    coordinator: Seq<char>,
) -> FlowView<VerdictView> {
    match flow {
        Ok((_, at)) => Err(
            tape::spec_fail(
                "node "@ + text::dec(node_id as int) + " accepted a commit for "@ + group
                    + ", which "@ + coordinator
                    + " coordinates; a consumer resuming through the coordinator would never see that offset and would reprocess everything after it"@,
                at,
            ),
        ),
        Err(HaltView::Broke(ErrorView::Violation(details), at)) => if text::has_text(
            details,
            not_coordinator,
        ) {
            Ok((VerdictView::Pass, at))
        } else {
            Err(
                tape::spec_fail(
                    "node "@ + text::dec(node_id as int)
                        + " refused the commit, but not with NOT_COORDINATOR, so the client is not told where to go instead: "@
                        + details,
                    at,
                ),
            )
        },
        Err(halt) => Err(tape::spec_during(halt, "OffsetCommit (to a non-coordinator)"@)),
    }
}

fn judge_misplaced(
    flow: Flow<()>,
    not_coordinator: &str,
    node_id: i32,
    group: &str,
    coordinator: &str,
) -> (r: Flow<Verdict>)
    ensures
        tape::ran(r) == spec_judge_misplaced(
            tape::ran(flow),
            not_coordinator@,
            node_id,
            group@,
            coordinator@,
        ),
{
    match flow {
        Ok((_, at)) => Err(
            fail(
                line("node ").num(node_id as i64).lit(" accepted a commit for ").lit(group).lit(
                    ", which ",
                ).lit(coordinator).lit(
                    " coordinates; a consumer resuming through the coordinator would never see that offset and would reprocess everything after it",
                ).done(),
                at,
            ),
        ),
        Err(Halt::Broke(CheckError::Violation(details), at)) => if contains_text(
            details.as_str(),
            not_coordinator,
        ) {
            Ok((Verdict::Pass, at))
        } else {
            Err(
                fail(
                    line("node ").num(node_id as i64).lit(
                        " refused the commit, but not with NOT_COORDINATOR, so the client is not told where to go instead: ",
                    ).lit(details.as_str()).done(),
                    at,
                ),
            )
        },
        Err(Halt::Broke(e, at)) => Err(
            Halt::Broke(e.context("OffsetCommit (to a non-coordinator)"), at),
        ),
        Err(halt) => Err(halt),
    }
}

pub open spec fn spec_cluster_group_offsets_need_the_coordinator(
    ctx: ServerCtx,
    tape: Seq<Event>,
) -> FlowView<VerdictView> {
    match spec_cluster_nodes(ctx, tape) {
        Err(halt) => Err(halt),
        Ok((nodes, at)) => match server_groups::spec_offsets_versions(ctx, at) {
            Err(halt) => Err(halt),
            Ok(versions) => {
                let commit_version = versions.0;
                match flows::spec_produce_flow(
                    ctx,
                    tape,
                    at,
                    "notcoord"@,
                    Addressing::Name,
                ) {
                    Err(halt) => Err(halt),
                    Ok((produced, at)) => match server_groups::spec_need_topic_id(
                        produced,
                        commit_version,
                        at,
                    ) {
                        Err(halt) => Err(halt),
                        Ok((_, at)) => {
                            let group = ctx.spec_check_group("notcoord"@);
                            match group_flows::spec_await_coordinator_at(
                                ctx,
                                tape,
                                at,
                                ctx.addr@,
                                group,
                            ) {
                                Err(halt) => Err(halt),
                                Ok((place, at)) => match place {
                                    None => Err(
                                            tape::spec_skip(
                                                "the subject named no coordinator for "@ + group,
                                                at,
                                            ),
                                        ),
                                    Some(coordinator) => match find::first_where(nodes, placed_elsewhere(coordinator)) {
                                        None => Err(
                                                tape::spec_skip(
                                                    "every broker the subject reports is at "@
                                                        + coordinator
                                                        + ", so there is no non-coordinator to commit against"@,
                                                    at,
                                                ),
                                            ),
                                        Some(other) => match tape::spec_connect(
                                            tape,
                                            at,
                                            other.addr,
                                        ) {
                                            Err(halt) => Err(halt),
                                            Ok((conn, at)) => match group_flows::spec_await_topic_known(
                                                ctx,
                                                tape,
                                                at,
                                                conn,
                                                produced.topic,
                                                1_490,
                                            ) {
                                                Err(halt) => Err(halt),
                                                Ok((_, at)) => spec_judge_misplaced(
                                                    group_flows::spec_commit_offset(
                                                        tape,
                                                        at,
                                                        conn,
                                                        commit_version,
                                                        group,
                                                        produced.topic,
                                                        produced.topic_id,
                                                        13,
                                                        1_495,
                                                    ),
                                                    ctx.names.not_coordinator@,
                                                    other.node_id,
                                                    group,
                                                    coordinator,
                                                ),
                                            },
                                        },
                                    },
                                },
                            }
                        },
                    },
                }
            },
        },
    }
}

/// Refuses a commit at a broker that does not coordinate the group: offsets
/// stored anywhere else are stored where nothing will read them.
pub fn cluster_group_offsets_need_the_coordinator(
    ctx: &ServerCtx,
    tape: &Vec<Event>,
) -> (r: Flow<Verdict>)
    ensures
        tape::ran(r) == spec_cluster_group_offsets_need_the_coordinator(*ctx, tape@),
{
    let (nodes, at) = cluster_nodes(ctx, tape)?;
    let versions: (i16,i16) = server_groups::offsets_versions(ctx, at)?;
    let commit_version: i16 = versions.0;
    let (produced, at) = flows::produce_flow(ctx, tape, at, "notcoord", Addressing::Name)?;
    let (_, at) = server_groups::need_topic_id(&produced, commit_version, at)?;
    let group = ctx.check_group("notcoord");
    let (place, at) = group_flows::await_coordinator_at(ctx, tape, at, ctx.addr.as_str(), group.as_str())?;
    let coordinator = match place.0 {
        None => {
                return Err(
                    skip(
                        line("the subject named no coordinator for ").lit(group.as_str()).done(),
                        at,
                    ),
                );
        },
        Some(found) => found,
    };
    let other = match node_elsewhere(&nodes, coordinator.as_str()) {
        None => {
                return Err(
                    skip(
                        line("every broker the subject reports is at ").lit(coordinator.as_str())
                            .lit(", so there is no non-coordinator to commit against").done(),
                        at,
                    ),
                );
        },
        Some(found) => found,
    };
    let (conn, at) = tape::connect(tape, at, other.addr.as_str())?;
    let (_, at) = group_flows::await_topic_known(ctx, tape, at, conn, produced.topic.as_str(), 1_490)?;
    judge_misplaced(
        group_flows::commit_offset(
            tape,
            at,
            conn,
            commit_version,
            group.as_str(),
            produced.topic.as_str(),
            produced.topic_id,
            13,
            1_495,
        ),
        ctx.names.not_coordinator.as_str(),
        other.node_id,
        group.as_str(),
        coordinator.as_str(),
    )
}

/// A verdict as its debug form shows it.
pub open spec fn spec_verdict_text(verdict: VerdictView) -> Seq<char> {
    match verdict {
        VerdictView::Pass => "Pass"@,
        VerdictView::Fail(details) => "Fail { details: "@ + text::quoted(details) + " }"@,
        VerdictView::Skipped(reason) => "Skipped { reason: "@ + text::quoted(reason) + " }"@,
        VerdictView::Error(details) => "Error { details: "@ + text::quoted(details) + " }"@,
    }
}

pub fn verdict_text(verdict: &Verdict) -> (r: String)
    ensures
        r@ == spec_verdict_text(verdict@),
{
    match verdict {
        Verdict::Pass => String::from_str("Pass"),
        Verdict::Fail { details } => line("Fail { details: ").quote(details.as_str()).lit(
            " }",
        ).done(),
        Verdict::Skipped { reason } => line("Skipped { reason: ").quote(reason.as_str()).lit(
            " }",
        ).done(),
        Verdict::Error { details } => line("Error { details: ").quote(details.as_str()).lit(
            " }",
        ).done(),
    }
}

/// Putting the broker back, however the check it was stopped for ended. A
/// broker that does not come back outranks whatever the check concluded:
/// from there on the report describes a cluster nobody agreed to.
pub open spec fn spec_restart(
    tape: Seq<Event>,
    body: FlowView<VerdictView>,
    node_id: i32,
    addr: Seq<char>,
) -> FlowView<VerdictView> {
    match tape::spec_settle(body) {
        Err(halt) => Err(halt),
        Ok((verdict, at)) => match tape::spec_control(
            tape,
            at,
            ActionOf::Start { node_id, addr },
        ) {
            Err(halt) => Err(halt),
            Ok((Ok(()), at)) => Ok((verdict, at)),
            Ok((Err(e), at)) => Err(
                tape::spec_error(
                    "node "@ + text::dec(node_id as int)
                        + " could not be restarted after the check ("@ + e@
                        + "); the cluster is short a broker and every later check is suspect. The check itself had reached: "@
                        + spec_verdict_text(verdict),
                    at,
                ),
            ),
        },
    }
}

fn restart(tape: &Vec<Event>, body: Flow<Verdict>, node_id: i32, addr: &String) -> (r: Flow<
    Verdict,
>)
    ensures
        tape::ran(r) == spec_restart(tape@, tape::ran(body), node_id, addr@),
{
    let (verdict, at) = tape::settle(body)?;
    let (done, at) = tape::control(tape, at, ActionOf::Start { node_id, addr: addr.clone() })?;
    match done {
        Ok(()) => Ok((verdict, at)),
        Err(e) => Err(
            error(
                line("node ").num(node_id as i64).lit(
                    " could not be restarted after the check (",
                ).lit(e.as_str()).lit(
                    "); the cluster is short a broker and every later check is suspect. The check itself had reached: ",
                ).lit(verdict_text(&verdict).as_str()).done(),
                at,
            ),
        ),
    }
}

/// Taking a broker out, for the checks that are about losing one. A stop that
/// failed may still have taken it out, so the broker is put back before the
/// check gives up.
pub open spec fn spec_stop_broker(tape: Seq<Event>, at: int, node_id: i32, addr: Seq<char>)
    -> FlowView<()> {
    match tape::spec_control(tape, at, ActionOf::Stop { node_id, addr }) {
        Err(halt) => Err(halt),
        Ok((Ok(()), at)) => Ok(((), at)),
        Ok((Err(e), at)) => {
            let unstopped = VerdictView::Error(
                "could not stop node "@ + text::dec(node_id as int) + " at "@ + addr + ": "@ + e@,
            );
            match spec_restart(tape, Ok((unstopped, at)), node_id, addr) {
                Err(halt) => Err(halt),
                Ok((verdict, at)) => Err(HaltView::Stop(verdict, at)),
            }
        },
    }
}

fn stop_broker(tape: &Vec<Event>, at: usize, node_id: i32, addr: &String) -> (r: Flow<()>)
    ensures
        tape::ran(r) == spec_stop_broker(tape@, at as int, node_id, addr@),
{
    let (done, at) = tape::control(tape, at, ActionOf::Stop { node_id, addr: addr.clone() })?;
    match done {
        Ok(()) => Ok(((), at)),
        Err(e) => {
            let unstopped = Verdict::Error {
                details: line("could not stop node ").num(node_id as i64).lit(" at ").lit(
                    addr.as_str(),
                ).lit(": ").lit(e.as_str()).done(),
            };
            let (verdict, at) = restart(tape, Ok((unstopped, at)), node_id, addr)?;
            Err(Halt::Stop(verdict, at))
        },
    }
}

/// However a check on a stopped broker ends, in a verdict, a violation or
/// trouble of its own, the next thing asked for is that broker's start; and
/// the check comes to an end only once the start was reported on. The same
/// holds where the stop, at `asked`, failed: that check ends in an error.
pub proof fn law_restart_on_every_path(
    tape: Seq<Event>,
    body: FlowView<VerdictView>,
    asked: int,
    node_id: i32,
    addr: Seq<char>,
)
    ensures
        body matches Err(HaltView::Ask(action)) ==> spec_restart(tape, body, node_id, addr)
            == Err::<(VerdictView, int), HaltView>(HaltView::Ask(action)),
        !(body matches Err(HaltView::Ask(_))) ==> {
            let end = match body {
                Ok((_, at)) => at,
                Err(HaltView::Stop(_, at)) => at,
                Err(HaltView::Broke(_, at)) => at,
                Err(HaltView::Ask(_)) => 0,
            };
            &&& end >= tape.len() ==> spec_restart(tape, body, node_id, addr) == Err::<
                (VerdictView, int),
                HaltView,
            >(HaltView::Ask(ActionOf::Start { node_id, addr }))
            &&& (0 <= end < tape.len() && tape[end] matches Event::Controlled(Ok(()))) ==> (
            spec_restart(tape, body, node_id, addr) matches Ok((verdict, at)) && at == end + 1
                && verdict == (match body {
                Ok((verdict, _)) => verdict,
                Err(HaltView::Stop(verdict, _)) => verdict,
                Err(HaltView::Broke(error, _)) => error.spec_verdict(),
                Err(HaltView::Ask(_)) => VerdictView::Pass,
            }))
            &&& (0 <= end < tape.len() && tape[end] matches Event::Controlled(Err(_))) ==> (
            spec_restart(tape, body, node_id, addr) matches Err(
                HaltView::Stop(VerdictView::Error(_), _),
            ))
        },
        (0 <= asked < tape.len() && tape[asked] matches Event::Controlled(Err(_))) ==> {
            &&& asked + 1 == tape.len() ==> spec_stop_broker(tape, asked, node_id, addr) == Err::<
                ((), int),
                HaltView,
            >(HaltView::Ask(ActionOf::Start { node_id, addr }))
            &&& (asked + 1 < tape.len() && tape[asked + 1] is Controlled) ==> (spec_stop_broker(
                tape,
                asked,
                node_id,
                addr,
            ) matches Err(HaltView::Stop(VerdictView::Error(_), at)) && at == asked + 2)
        },
{
}

pub open spec fn spec_need_control(ctx: ServerCtx, at: int) -> FlowView<()> {
    if !ctx.config.control {
        Err(
            tape::spec_skip(
                "no --cluster-control was given, so the suite has no way to stop a broker and no business assuming one"@,
                at,
            ),
        )
    } else {
        Ok(((), at))
    }
}

/// The checks that stop a broker need a way to: a suite is not entitled to
/// assume it may stop somebody's.
fn need_control(ctx: &ServerCtx, at: usize) -> (r: Flow<()>)
    ensures
        tape::ran(r) == spec_need_control(*ctx, at as int),
{
    if !ctx.config.control {
        return Err(
            skip(
                String::from_str(
                    "no --cluster-control was given, so the suite has no way to stop a broker and no business assuming one",
                ),
                at,
            ),
        );
    }
    Ok(((), at))
}

/// Whether a partition is led, and not by the broker that was stopped.
pub open spec fn is_another(leader: i32, stopped: i32) -> bool {
    leader != stopped && leader >= 0
}

/// Waiting for another leader, from the given attempt on.
pub open spec fn spec_await_failover(
    ctx: ServerCtx,
    tape: Seq<Event>,
    at: int,
    conn: usize,
    version: i16,
    topic: Seq<char>,
    leader: i32,
    replicas: Seq<i32>,
    attempt: int,
) -> FlowView<i32>
    decreases ctx.config.spec_recovery_attempts() - attempt,
{
    if attempt >= ctx.config.spec_recovery_attempts() {
        Err(
            tape::spec_fail(
                "node "@ + text::dec(leader as int) + " was stopped and "@ + topic
                    + "[0] still has no other leader after "@
                    + text::duration_text(ctx.config.recovery_budget.nanos)
                    + "; its replicas were "@ + text::int_list(text::ints_of_i32(replicas))
                    + ", so there was somewhere for leadership to go and it did not"@,
                at,
            ),
        )
    } else {
        match tape::spec_pause_between(tape, at, attempt) {
            Err(halt) => Err(halt),
            Ok((_, at)) => match spec_leadership_at(tape, at, conn, version, topic, 1_520) {
                Ok((seen, at)) => match seen {
                        None => spec_await_failover(
                                ctx,
                                tape,
                                at,
                                conn,
                                version,
                                topic,
                                leader,
                                replicas,
                                attempt + 1,
                            ),
                        Some(row) => if is_another(row.leader_id, leader) {
                            Ok((row.leader_id, at))
                        } else {
                            spec_await_failover(
                                ctx,
                                tape,
                                at,
                                conn,
                                version,
                                topic,
                                leader,
                                replicas,
                                attempt + 1,
                            )
                        },
                    },
                Err(HaltView::Broke(_, at)) => spec_await_failover(
                        ctx,
                        tape,
                        at,
                        conn,
                        version,
                        topic,
                        leader,
                        replicas,
                        attempt + 1,
                    ),
                Err(halt) => Err(halt),
            },
        }
    }
}

/// Waits for another broker than the stopped one to lead. Trouble asking is
/// no answer.
fn await_failover(
    ctx: &ServerCtx,
    tape: &Vec<Event>,
    at: usize,
    conn: usize,
    version: i16,
    topic: &str,
    leader: i32,
    replicas: &Vec<i32>,
) -> (r: Flow<i32>)
    ensures
        tape::ran(r) == spec_await_failover(
            *ctx,
            tape@,
            at as int,
            conn,
            version,
            topic@,
            leader,
            replicas@,
            0,
        ),
{
    let bound: u32 = ctx.config.recovery_attempts();
    let mut here: usize = at;
    let mut attempt: u32 = 0;
    while attempt < bound
        invariant
            attempt <= bound,
            bound == ctx.config.spec_recovery_attempts(),
            spec_await_failover(*ctx, tape@, at as int, conn, version, topic@, leader, replicas@, 0) == spec_await_failover(
                *ctx,
                tape@,
                here as int,
                conn,
                version,
                topic@,
                leader,
                replicas@,
                attempt as int,
            ),
        decreases bound - attempt,
    {
        let (_, next) = tape::pause_between(tape, here, attempt)?;
        match leadership_at(tape, next, conn, version, topic, 1_520) {
            Ok((seen, next)) => {
                let row = match seen {
                    None => {
                            here = next;
                            attempt = attempt + 1;
                            continue;
                    },
                    Some(found) => found,
                };
                if row.leader_id != leader && row.leader_id >= 0 {
                    return Ok((row.leader_id, next));
                }
                here = next;
                attempt = attempt + 1;
            },
            Err(Halt::Broke(_, next)) => {
                here = next;
                attempt = attempt + 1;
            },
            Err(halt) => return Err(halt),
        }
    }
    Err(
        fail(
            line("node ").num(leader as i64).lit(" was stopped and ").lit(topic)
                .lit("[0] still has no other leader after ").wait(ctx.config.recovery_budget.nanos)
                .lit("; its replicas were ").nums(replicas)
                .lit(", so there was somewhere for leadership to go and it did not").done(),
            here,
        ),
    )
}

/// Writing at the new leader, from the given attempt on.
pub open spec fn spec_await_writable(
    ctx: ServerCtx,
    tape: Seq<Event>,
    at: int,
    conn: usize,
    version: i16,
    topic: Seq<char>,
    leader: i32,
    new_leader: i32,
    attempt: int,
    last: Seq<char>,
) -> FlowView<VerdictView>
    decreases ctx.config.spec_recovery_attempts() - attempt,
{
    if attempt >= ctx.config.spec_recovery_attempts() {
        Err(
            tape::spec_fail(
                topic + "[0] reports node "@ + text::dec(new_leader as int)
                    + " as its leader with node "@ + text::dec(leader as int)
                    + " stopped, but a write there answers "@ + last
                    + "; the partition has a leader in name only"@,
                at,
            ),
        )
    } else {
        match tape::spec_pause_between(tape, at, attempt) {
            Err(halt) => Err(halt),
            Ok((_, at)) => match txn_flows::spec_produce_stamped(
                tape,
                at,
                conn,
                version,
                batch::spec_plain_stamp(),
                topic,
                1_530,
            ) {
                Ok((row, at)) => if row.error.ok() {
                        Ok((VerdictView::Pass, at))
                    } else {
                        spec_await_writable(
                            ctx,
                            tape,
                            at,
                            conn,
                            version,
                            topic,
                            leader,
                            new_leader,
                            attempt + 1,
                            row.error.shown@,
                        )
                    },
                Err(HaltView::Broke(_, at)) => spec_await_writable(
                        ctx,
                        tape,
                        at,
                        conn,
                        version,
                        topic,
                        leader,
                        new_leader,
                        attempt + 1,
                        last,
                    ),
                Err(halt) => Err(halt),
            },
        }
    }
}

/// Writes at the new leader until it takes the write. Trouble asking is no
/// answer.
fn await_writable(
    ctx: &ServerCtx,
    tape: &Vec<Event>,
    at: usize,
    conn: usize,
    version: i16,
    topic: &str,
    leader: i32,
    new_leader: i32,
) -> (r: Flow<Verdict>)
    ensures
        tape::ran(r) == spec_await_writable(
            *ctx,
            tape@,
            at as int,
            conn,
            version,
            topic@,
            leader,
            new_leader,
            0,
            ctx.names.none@,
        ),
{
    let bound: u32 = ctx.config.recovery_attempts();
    let mut last: String = ctx.names.none.clone();
    let mut here: usize = at;
    let mut attempt: u32 = 0;
    while attempt < bound
        invariant
            attempt <= bound,
            bound == ctx.config.spec_recovery_attempts(),
            spec_await_writable(*ctx, tape@, at as int, conn, version, topic@, leader, new_leader, 0, ctx.names.none@) == spec_await_writable(
                *ctx,
                tape@,
                here as int,
                conn,
                version,
                topic@,
                leader,
                new_leader,
                attempt as int,
                last@,
            ),
        decreases bound - attempt,
    {
        let (_, next) = tape::pause_between(tape, here, attempt)?;
        match txn_flows::produce_stamped(
            tape,
            next,
            conn,
            version,
            ProduceStampOf::plain(),
            topic,
            1_530,
        ) {
            Ok((row, next)) => {
                if row.error.is_ok() {
                    return Ok((Verdict::Pass, next));
                }
                last = row.error.shown.clone();
                here = next;
                attempt = attempt + 1;
            },
            Err(Halt::Broke(_, next)) => {
                here = next;
                attempt = attempt + 1;
            },
            Err(halt) => return Err(halt),
        }
    }
    Err(
        fail(
            line(topic).lit("[0] reports node ").num(new_leader as i64)
                .lit(" as its leader with node ").num(leader as i64)
                .lit(" stopped, but a write there answers ").lit(last.as_str())
                .lit("; the partition has a leader in name only").done(),
            here,
        ),
    )
}

/// The check between the stop and the start: a leader exists again, it is one
/// of the replicas named while the cluster was healthy, and it takes a write.
pub open spec fn spec_failover(
    ctx: ServerCtx,
    tape: Seq<Event>,
    at: int,
    survivor: Seq<char>,
    metadata_version: i16,
    produce_version: i16,
    topic: Seq<char>,
    leader: i32,
    replicas: Seq<i32>,
    nodes: Seq<NodeView>,
) -> FlowView<VerdictView> {
    match tape::spec_doing(
        tape::spec_connect(tape, at, survivor),
        "connecting to a surviving broker"@,
    ) {
        Err(halt) => Err(halt),
        Ok((conn, at)) => match spec_await_failover(
            ctx,
            tape,
            at,
            conn,
            metadata_version,
            topic,
            leader,
            replicas,
            0,
        ) {
            Err(halt) => Err(halt),
            Ok((new_leader, at)) => if !replicas.contains(new_leader) {
                Err(
                    tape::spec_fail(
                        topic + "[0] failed over to node "@ + text::dec(new_leader as int)
                            + ", which was not among the replicas the cluster named while healthy ("@
                            + text::int_list(text::ints_of_i32(replicas))
                            + "); that broker cannot have had the data"@,
                        at,
                    ),
                )
            } else {
                match find::first_where(nodes, with_id(new_leader)) {
                    None => Err(
                            tape::spec_fail(
                                topic + "[0] failed over to node "@ + text::dec(new_leader as int)
                                    + ", which is not one of the brokers the cluster reports"@,
                                at,
                            ),
                        ),
                    Some(node) => match tape::spec_doing(
                        tape::spec_connect(tape, at, node.addr),
                        "connecting to the new leader"@,
                    ) {
                        Err(halt) => Err(halt),
                        Ok((taker, at)) => spec_await_writable(
                            ctx,
                            tape,
                            at,
                            taker,
                            produce_version,
                            topic,
                            leader,
                            new_leader,
                            0,
                            ctx.names.none@,
                        ),
                    },
                }
            },
        },
    }
}

/// What is asked while the leader is down.
fn failover(
    ctx: &ServerCtx,
    tape: &Vec<Event>,
    at: usize,
    survivor: &str,
    metadata_version: i16,
    produce_version: i16,
    topic: &str,
    leader: i32,
    replicas: &Vec<i32>,
    nodes: &Nodes,
) -> (r: Flow<Verdict>)
    ensures
        tape::ran(r) == spec_failover(
            *ctx,
            tape@,
            at as int,
            survivor@,
            metadata_version,
            produce_version,
            topic@,
            leader,
            replicas@,
            nodes@,
        ),
{
    let (conn, at) = doing(tape::connect(tape, at, survivor), "connecting to a surviving broker")?;
    let (new_leader, at) = await_failover(ctx, tape, at, conn, metadata_version, topic, leader, replicas)?;
    if !find::has_i32(replicas, new_leader) {
        return Err(
            fail(
                line(topic).lit("[0] failed over to node ").num(new_leader as i64)
                    .lit(", which was not among the replicas the cluster named while healthy (")
                    .nums(replicas).lit("); that broker cannot have had the data").done(),
                at,
            ),
        );
    }
    let node = match node_with(nodes, new_leader) {
        None => {
                return Err(
                    fail(
                        line(topic).lit("[0] failed over to node ").num(new_leader as i64)
                            .lit(", which is not one of the brokers the cluster reports").done(),
                        at,
                    ),
                );
        },
        Some(found) => found,
    };
    let (taker, at) = doing(tape::connect(tape, at, node.addr.as_str()), "connecting to the new leader")?;
    await_writable(ctx, tape, at, taker, produce_version, topic, leader, new_leader)
}

pub open spec fn spec_cluster_leadership_moves_when_a_broker_stops(
    ctx: ServerCtx,
    tape: Seq<Event>,
) -> FlowView<VerdictView> {
    match spec_cluster_nodes(ctx, tape) {
        Err(halt) => Err(halt),
        Ok((nodes, at)) => match spec_need_control(ctx, at) {
            Err(halt) => Err(halt),
            Ok((_, at)) => match ctx.spec_version(
                at,
                "Metadata"@,
                METADATA,
                1,
                ctx.schema.metadata.max,
            ) {
                Err(halt) => Err(halt),
                Ok(metadata_version) => match ctx.spec_version(
                    at,
                    "Produce"@,
                    PRODUCE,
                    ctx.schema.produce.min,
                    PRODUCE_NAME_MAX,
                ) {
                    Err(halt) => Err(halt),
                    Ok(produce_version) => match ctx::spec_fresh_topic(ctx, tape, at, "failover"@) {
                        Err(halt) => Err(halt),
                        Ok((topic, at)) => {
                            let wanted = spec_replicas_for(nodes.len() as int, 1);
                            match tape::spec_connect(tape, at, ctx.addr@) {
                                Err(halt) => Err(halt),
                                Ok((bootstrap, at)) => match spec_create_replicated_topic(
                                    ctx,
                                    tape,
                                    at,
                                    bootstrap,
                                    topic,
                                    wanted,
                                    1_500,
                                ) {
                                    Err(halt) => Err(halt),
                                    Ok((_, at)) => match spec_settle_leadership(
                                        ctx,
                                        tape,
                                        at,
                                        bootstrap,
                                        metadata_version,
                                        topic,
                                        1_510,
                                        0,
                                    ) {
                                        Err(halt) => Err(halt),
                                        Ok((row, at)) => {
                                            let leader = row.leader_id;
                                            match find::first_where(nodes, with_id(leader)) {
                                                None => Err(
                                                        tape::spec_fail(
                                                            topic + "[0] is led by node "@
                                                                + text::dec(leader as int)
                                                                + ", which is not one of the brokers the same cluster reports"@,
                                                            at,
                                                        ),
                                                    ),
                                                Some(stopping) => match find::first_where(nodes, without_id(leader)) {
                                                    None => Err(
                                                            tape::spec_skip(
                                                                "every broker is node "@
                                                                    + text::dec(leader as int)
                                                                    + ", so stopping it leaves nobody to ask"@,
                                                                at,
                                                            ),
                                                        ),
                                                    Some(survivor) => match spec_stop_broker(
                                                        tape,
                                                        at,
                                                        leader,
                                                        stopping.addr,
                                                    ) {
                                                        Err(halt) => Err(halt),
                                                        Ok((_, at)) => spec_restart(
                                                            tape,
                                                            spec_failover(
                                                                ctx,
                                                                tape,
                                                                at,
                                                                survivor.addr,
                                                                metadata_version,
                                                                produce_version,
                                                                topic,
                                                                leader,
                                                                row.replicas@,
                                                                nodes,
                                                            ),
                                                            leader,
                                                            stopping.addr,
                                                        ),
                                                    },
                                                },
                                            }
                                        },
                                    },
                                },
                            }
                        },
                    },
                },
            },
        },
    }
}

/// Moves leadership off a broker that stopped, to a replica that then takes
/// writes.
pub fn cluster_leadership_moves_when_a_broker_stops(
    ctx: &ServerCtx,
    tape: &Vec<Event>,
) -> (r: Flow<Verdict>)
    ensures
        tape::ran(r) == spec_cluster_leadership_moves_when_a_broker_stops(*ctx, tape@),
{
    let (nodes, at) = cluster_nodes(ctx, tape)?;
    let (_, at) = need_control(ctx, at)?;
    let metadata_version: i16 = ctx.version(at, "Metadata", METADATA, 1, ctx.schema.metadata.max)?;
    let produce_version: i16 = ctx.version(at, "Produce", PRODUCE, ctx.schema.produce.min, PRODUCE_NAME_MAX)?;
    let (topic, at) = ctx::fresh_topic(ctx, tape, at, "failover")?;
    let wanted: i16 = replicas_for(nodes.0.len(), 1);
    let (bootstrap, at) = tape::connect(tape, at, ctx.addr.as_str())?;
    let (_, at) = create_replicated_topic(ctx, tape, at, bootstrap, &topic, wanted, 1_500)?;
    let (row, at) = settle_leadership(ctx, tape, at, bootstrap, metadata_version, topic.as_str(), 1_510)?;
    let leader: i32 = row.leader_id;
    let stopping = match node_with(&nodes, leader) {
        None => {
                return Err(
                    fail(
                        line(topic.as_str()).lit("[0] is led by node ").num(leader as i64)
                            .lit(", which is not one of the brokers the same cluster reports")
                            .done(),
                        at,
                    ),
                );
        },
        Some(found) => found,
    };
    let survivor = match node_without(&nodes, leader) {
        None => {
                return Err(
                    skip(
                        line("every broker is node ").num(leader as i64)
                            .lit(", so stopping it leaves nobody to ask").done(),
                        at,
                    ),
                );
        },
        Some(found) => found,
    };
    let (_, at) = stop_broker(tape, at, leader, &stopping.addr)?;
    restart(
        tape,
        failover(
            ctx,
            tape,
            at,
            survivor.addr.as_str(),
            metadata_version,
            produce_version,
            topic.as_str(),
            leader,
            &row.replicas,
            &nodes,
        ),
        leader,
        &stopping.addr,
    )
}

/// The offset whose survival is asked about.
pub const DURABLE: i64 = 23;

/// Waiting for another coordinator, from the given attempt on.
pub open spec fn spec_await_relocated(
    ctx: ServerCtx,
    tape: Seq<Event>,
    at: int,
    survivor: Seq<char>,
    group: Seq<char>,
    coordinator: Seq<char>,
    owner: i32,
    attempt: int,
) -> FlowView<Seq<char>>
    decreases ctx.config.spec_recovery_attempts() - attempt,
{
    if attempt >= ctx.config.spec_recovery_attempts() {
        Err(
            tape::spec_fail(
                "node "@ + text::dec(owner as int) + " coordinated "@ + group
                    + " and was stopped; after "@
                    + text::duration_text(ctx.config.recovery_budget.nanos)
                    + " the cluster still names no other coordinator, so the group cannot commit or resume at all"@,
                at,
            ),
        )
    } else {
        match tape::spec_pause_between(tape, at, attempt) {
            Err(halt) => Err(halt),
            Ok((_, at)) => match group_flows::spec_await_coordinator_at(
                ctx,
                tape,
                at,
                survivor,
                group,
            ) {
                Ok((place, at)) => match place {
                        None => spec_await_relocated(
                                ctx,
                                tape,
                                at,
                                survivor,
                                group,
                                coordinator,
                                owner,
                                attempt + 1,
                            ),
                        Some(addr) => if addr != coordinator {
                            Ok((addr, at))
                        } else {
                            spec_await_relocated(
                                ctx,
                                tape,
                                at,
                                survivor,
                                group,
                                coordinator,
                                owner,
                                attempt + 1,
                            )
                        },
                    },
                Err(HaltView::Broke(_, at)) => spec_await_relocated(
                        ctx,
                        tape,
                        at,
                        survivor,
                        group,
                        coordinator,
                        owner,
                        attempt + 1,
                    ),
                Err(halt) => Err(halt),
            },
        }
    }
}

/// Waits for the group to have another coordinator, asking a survivor.
/// Trouble asking is no answer.
fn await_relocated(
    ctx: &ServerCtx,
    tape: &Vec<Event>,
    at: usize,
    survivor: &str,
    group: &str,
    coordinator: &str,
    owner: i32,
) -> (r: Flow<String>)
    ensures
        tape::ran(r) == spec_await_relocated(
            *ctx,
            tape@,
            at as int,
            survivor@,
            group@,
            coordinator@,
            owner,
            0,
        ),
{
    let bound: u32 = ctx.config.recovery_attempts();
    let mut here: usize = at;
    let mut attempt: u32 = 0;
    while attempt < bound
        invariant
            attempt <= bound,
            bound == ctx.config.spec_recovery_attempts(),
            spec_await_relocated(*ctx, tape@, at as int, survivor@, group@, coordinator@, owner, 0) == spec_await_relocated(
                *ctx,
                tape@,
                here as int,
                survivor@,
                group@,
                coordinator@,
                owner,
                attempt as int,
            ),
        decreases bound - attempt,
    {
        let (_, next) = tape::pause_between(tape, here, attempt)?;
        match group_flows::await_coordinator_at(ctx, tape, next, survivor, group) {
            Ok((place, next)) => {
                let addr = match place.0 {
                    None => {
                            here = next;
                            attempt = attempt + 1;
                            continue;
                    },
                    Some(found) => found,
                };
                if !same_text(addr.as_str(), coordinator) {
                    return Ok((addr, next));
                }
                here = next;
                attempt = attempt + 1;
            },
            Err(Halt::Broke(_, next)) => {
                here = next;
                attempt = attempt + 1;
            },
            Err(halt) => return Err(halt),
        }
    }
    Err(
        fail(
            line("node ").num(owner as i64).lit(" coordinated ").lit(group)
                .lit(" and was stopped; after ").wait(ctx.config.recovery_budget.nanos)
                .lit(" the cluster still names no other coordinator, so the group cannot commit or resume at all")
                .done(),
            here,
        ),
    )
}

/// Reading the offset at the new coordinator, from the given attempt on. One
/// that has just taken the group over loads its state first, and until then
/// the group's partitions are not in its reply at all.
pub open spec fn spec_await_offset(
    ctx: ServerCtx,
    tape: Seq<Event>,
    at: int,
    conn: usize,
    version: i16,
    group: Seq<char>,
    topic: Seq<char>,
    topic_id: TopicId,
    owner: i32,
    addr: Seq<char>,
    attempt: int,
    last: Seq<char>,
) -> FlowView<VerdictView>
    decreases ctx.config.spec_recovery_attempts() - attempt,
{
    if attempt >= ctx.config.spec_recovery_attempts() {
        Err(
            tape::spec_fail(
                group + " committed offset "@ + text::dec(DURABLE as int) + ", node "@ + text::dec(
                    owner as int,
                ) + " (its coordinator) was stopped, and the new coordinator at "@ + addr
                    + " still "@ + last + " after "@ + text::duration_text(
                    ctx.config.recovery_budget.nanos,
                ) + ". A consumer resuming here reprocesses everything since"@,
                at,
            ),
        )
    } else {
        match tape::spec_pause_between(tape, at, attempt) {
            Err(halt) => Err(halt),
            Ok((_, at)) => match group_flows::spec_fetch_committed(
                tape,
                at,
                conn,
                version,
                group,
                topic,
                topic_id,
                1_550,
            ) {
                Ok((got, at)) => if got == DURABLE {
                    Ok((VerdictView::Pass, at))
                } else {
                    spec_await_offset(
                        ctx,
                        tape,
                        at,
                        conn,
                        version,
                        group,
                        topic,
                        topic_id,
                        owner,
                        addr,
                        attempt + 1,
                        "reports "@ + text::dec(got as int),
                    )
                },
                Err(HaltView::Broke(ErrorView::Violation(details), at)) => spec_await_offset(
                    ctx,
                    tape,
                    at,
                    conn,
                    version,
                    group,
                    topic,
                    topic_id,
                    owner,
                    addr,
                    attempt + 1,
                    details,
                ),
                Err(halt) => Err(tape::spec_during(halt, "OffsetFetch (after failover)"@)),
            },
        }
    }
}

fn await_offset(
    ctx: &ServerCtx,
    tape: &Vec<Event>,
    at: usize,
    conn: usize,
    version: i16,
    group: &str,
    topic: &str,
    topic_id: TopicId,
    owner: i32,
    addr: &str,
) -> (r: Flow<Verdict>)
    ensures
        tape::ran(r) == spec_await_offset(
            *ctx,
            tape@,
            at as int,
            conn,
            version,
            group@,
            topic@,
            topic_id,
            owner,
            addr@,
            0,
            "says nothing about it"@,
        ),
{
    let attempts: u32 = ctx.config.recovery_attempts();
    let mut last: String = String::from_str("says nothing about it");
    let mut here: usize = at;
    let mut attempt: u32 = 0;
    while attempt < attempts
        invariant
            attempt <= attempts,
            attempts == ctx.config.spec_recovery_attempts(),
            spec_await_offset(
                *ctx,
                tape@,
                at as int,
                conn,
                version,
                group@,
                topic@,
                topic_id,
                owner,
                addr@,
                0,
                "says nothing about it"@,
            ) == spec_await_offset(
                *ctx,
                tape@,
                here as int,
                conn,
                version,
                group@,
                topic@,
                topic_id,
                owner,
                addr@,
                attempt as int,
                last@,
            ),
        decreases attempts - attempt,
    {
        let (_, next) = tape::pause_between(tape, here, attempt)?;
        match group_flows::fetch_committed(
            tape,
            next,
            conn,
            version,
            group,
            topic,
            topic_id,
            1_550,
        ) {
            Ok((got, next)) => {
                if got == DURABLE {
                    return Ok((Verdict::Pass, next));
                }
                last = line("reports ").num(got).done();
                here = next;
            },
            Err(Halt::Broke(CheckError::Violation(details), next)) => {
                last = details;
                here = next;
            },
            Err(Halt::Broke(e, next)) => return Err(
                Halt::Broke(e.context("OffsetFetch (after failover)"), next),
            ),
            Err(halt) => return Err(halt),
        }
        attempt = attempt + 1;
    }
    Err(
        fail(
            line(group).lit(" committed offset ").num(DURABLE).lit(", node ").num(
                owner as i64,
            ).lit(" (its coordinator) was stopped, and the new coordinator at ").lit(addr).lit(
                " still ",
            ).lit(last.as_str()).lit(" after ").wait(ctx.config.recovery_budget.nanos).lit(
                ". A consumer resuming here reprocesses everything since",
            ).done(),
            here,
        ),
    )
}

/// The check between the stop and the start: the group gets another
/// coordinator, and it knows the committed offset.
pub open spec fn spec_resume(
    ctx: ServerCtx,
    tape: Seq<Event>,
    at: int,
    survivor: Seq<char>,
    fetch_version: i16,
    group: Seq<char>,
    coordinator: Seq<char>,
    produced: ProducedView,
    owner: i32,
) -> FlowView<VerdictView> {
    match tape::spec_doing(
        tape::spec_connect(tape, at, survivor),
        "connecting to a surviving broker"@,
    ) {
        Err(halt) => Err(halt),
        Ok((conn, at)) => match spec_await_relocated(
            ctx,
            tape,
            at,
            survivor,
            group,
            coordinator,
            owner,
            0,
        ) {
            Err(halt) => Err(halt),
            Ok((addr, at)) => match tape::spec_connect(tape, at, addr) {
                Ok((other, at)) => spec_await_offset(
                        ctx,
                        tape,
                        at,
                        other,
                        fetch_version,
                        group,
                        produced.topic,
                        produced.topic_id,
                        owner,
                        addr,
                        0,
                        "says nothing about it"@,
                    ),
                Err(HaltView::Broke(_, at)) => spec_await_offset(
                        ctx,
                        tape,
                        at,
                        conn,
                        fetch_version,
                        group,
                        produced.topic,
                        produced.topic_id,
                        owner,
                        addr,
                        0,
                        "says nothing about it"@,
                    ),
                Err(halt) => Err(halt),
            },
        },
    }
}

/// What is asked while the coordinator is down.
fn resume(
    ctx: &ServerCtx,
    tape: &Vec<Event>,
    at: usize,
    survivor: &str,
    fetch_version: i16,
    group: &str,
    coordinator: &str,
    produced: &ProducedTopic,
    owner: i32,
) -> (r: Flow<Verdict>)
    ensures
        tape::ran(r) == spec_resume(
            *ctx,
            tape@,
            at as int,
            survivor@,
            fetch_version,
            group@,
            coordinator@,
            produced@,
            owner,
        ),
{
    let (conn, at) = doing(tape::connect(tape, at, survivor), "connecting to a surviving broker")?;
    let (addr, at) = await_relocated(ctx, tape, at, survivor, group, coordinator, owner)?;
    match tape::connect(tape, at, addr.as_str()) {
        Ok((other, at)) => {
            await_offset(
                ctx,
                tape,
                at,
                other,
                fetch_version,
                group,
                produced.topic.as_str(),
                produced.topic_id,
                owner,
                addr.as_str(),
            )
        },
        Err(Halt::Broke(_, at)) => {
            await_offset(
                ctx,
                tape,
                at,
                conn,
                fetch_version,
                group,
                produced.topic.as_str(),
                produced.topic_id,
                owner,
                addr.as_str(),
            )
        },
        Err(halt) => return Err(halt),
    }
}

pub open spec fn spec_cluster_committed_offsets_outlive_the_coordinator(
    ctx: ServerCtx,
    tape: Seq<Event>,
) -> FlowView<VerdictView> {
    match spec_cluster_nodes(ctx, tape) {
        Err(halt) => Err(halt),
        Ok((nodes, at)) => match spec_need_control(ctx, at) {
            Err(halt) => Err(halt),
            Ok((_, at)) => match server_groups::spec_offsets_versions(ctx, at) {
                Err(halt) => Err(halt),
                Ok(versions) => match flows::spec_produce_flow(
                    ctx,
                    tape,
                    at,
                    "coordloss"@,
                    Addressing::Name,
                ) {
                    Err(halt) => Err(halt),
                    Ok((produced, at)) => match server_groups::spec_need_topic_id(
                        produced,
                        versions.0,
                        at,
                    ) {
                        Err(halt) => Err(halt),
                        Ok((_, at)) => {
                            let group = ctx.spec_check_group("coordloss"@);
                            match group_flows::spec_await_coordinator_at(
                                ctx,
                                tape,
                                at,
                                ctx.addr@,
                                group,
                            ) {
                                Err(halt) => Err(halt),
                                Ok((place, at)) => match place {
                                    None => Err(
                                            tape::spec_skip(
                                                "the subject named no coordinator for "@ + group,
                                                at,
                                            ),
                                        ),
                                    Some(coordinator) => match find::first_where(nodes, placed_at(coordinator)) {
                                        None => Err(
                                                tape::spec_skip(
                                                    "the coordinator for "@ + group + " is at "@
                                                        + coordinator
                                                        + ", which is not one of the brokers Metadata reports, so there is no node to stop"@,
                                                    at,
                                                ),
                                            ),
                                        Some(owner) => match find::first_where(nodes, without_id(owner.node_id)) {
                                            None => Err(
                                                    tape::spec_skip(
                                                        "the coordinator is the only broker, so stopping it leaves nobody to ask"@,
                                                        at,
                                                    ),
                                                ),
                                            Some(survivor) => match tape::spec_connect(
                                                tape,
                                                at,
                                                coordinator,
                                            ) {
                                                Err(halt) => Err(halt),
                                                Ok((conn, at)) => match group_flows::spec_await_topic_known(
                                                    ctx,
                                                    tape,
                                                    at,
                                                    conn,
                                                    produced.topic,
                                                    1_540,
                                                ) {
                                                    Err(halt) => Err(halt),
                                                    Ok((_, at)) => match tape::spec_doing(
                                                        group_flows::spec_commit_offset(
                                                            tape,
                                                            at,
                                                            conn,
                                                            versions.0,
                                                            group,
                                                            produced.topic,
                                                            produced.topic_id,
                                                            DURABLE,
                                                            1_545,
                                                        ),
                                                        "OffsetCommit"@,
                                                    ) {
                                                        Err(halt) => Err(halt),
                                                        Ok((_, at)) => match spec_stop_broker(
                                                            tape,
                                                            at,
                                                            owner.node_id,
                                                            coordinator,
                                                        ) {
                                                            Err(halt) => Err(halt),
                                                            Ok((_, at)) => spec_restart(
                                                                tape,
                                                                spec_resume(
                                                                    ctx,
                                                                    tape,
                                                                    at,
                                                                    survivor.addr,
                                                                    versions.1,
                                                                    group,
                                                                    coordinator,
                                                                    produced,
                                                                    owner.node_id,
                                                                ),
                                                                owner.node_id,
                                                                coordinator,
                                                            ),
                                                        },
                                                    },
                                                },
                                            },
                                        },
                                    },
                                },
                            }
                        },
                    },
                },
            },
        },
    }
}

/// Keeps committed offsets when the broker that coordinated them stops.
pub fn cluster_committed_offsets_outlive_the_coordinator(
    ctx: &ServerCtx,
    tape: &Vec<Event>,
) -> (r: Flow<Verdict>)
    ensures
        tape::ran(r) == spec_cluster_committed_offsets_outlive_the_coordinator(*ctx, tape@),
{
    let (nodes, at) = cluster_nodes(ctx, tape)?;
    let (_, at) = need_control(ctx, at)?;
    let versions: (i16,i16) = server_groups::offsets_versions(ctx, at)?;
    let (produced, at) = flows::produce_flow(ctx, tape, at, "coordloss", Addressing::Name)?;
    let (_, at) = server_groups::need_topic_id(&produced, versions.0, at)?;
    let group = ctx.check_group("coordloss");
    let (place, at) = group_flows::await_coordinator_at(ctx, tape, at, ctx.addr.as_str(), group.as_str())?;
    let coordinator = match place.0 {
        None => {
                return Err(
                    skip(
                        line("the subject named no coordinator for ").lit(group.as_str()).done(),
                        at,
                    ),
                );
        },
        Some(found) => found,
    };
    let owner = match node_at(&nodes, coordinator.as_str()) {
        None => {
                return Err(
                    skip(
                        line("the coordinator for ").lit(group.as_str()).lit(" is at ")
                            .lit(coordinator.as_str())
                            .lit(", which is not one of the brokers Metadata reports, so there is no node to stop")
                            .done(),
                        at,
                    ),
                );
        },
        Some(found) => found,
    };
    let survivor = match node_without(&nodes, owner.node_id) {
        None => {
                return Err(
                    skip(
                        String::from_str(
                            "the coordinator is the only broker, so stopping it leaves nobody to ask",
                        ),
                        at,
                    ),
                );
        },
        Some(found) => found,
    };
    let (conn, at) = tape::connect(tape, at, coordinator.as_str())?;
    let (_, at) = group_flows::await_topic_known(ctx, tape, at, conn, produced.topic.as_str(), 1_540)?;
    let (_, at) = doing(
        group_flows::commit_offset(
            tape,
            at,
            conn,
            versions.0,
            group.as_str(),
            produced.topic.as_str(),
            produced.topic_id,
            DURABLE,
            1_545,
        ),
        "OffsetCommit",
    )?;
    let (_, at) = stop_broker(tape, at, owner.node_id, &coordinator)?;
    restart(
        tape,
        resume(
            ctx,
            tape,
            at,
            survivor.addr.as_str(),
            versions.1,
            group.as_str(),
            coordinator.as_str(),
            &produced,
            owner.node_id,
        ),
        owner.node_id,
        &coordinator,
    )
}

} // verus!

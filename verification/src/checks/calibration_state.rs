//! What the checks make of what the reference subject keeps: its logs,
//! transactions, groups and placement.

use vstd::prelude::*;
use vstd::string::*;

use crate::checks::calibration;
use crate::checks::find;
use crate::checks::flows::ProducedView;
use crate::checks::naming;
use crate::checks::server_cluster;
use crate::checks::server_cluster::NodeView;
use crate::checks::server_groups;
use crate::checks::server_log;
use crate::checks::server_txn;
use crate::subject::groups;
use crate::subject::log;
use crate::subject::offsets;
use crate::subject::replies::{AssignedTopicView, ProduceReplyView};
use crate::subject::requests::{ConsumerGroupAskView, ProducePartitionView};
use crate::subject::serve;
use crate::subject::serve::{AnswerView, Asked};
use crate::subject::state;
use crate::subject::state::{ClusterView, LogView};
use crate::subject::topics;
use crate::subject::txn;
use crate::subject::Fault;
use crate::text;
use crate::wire::{AssignedTopic, ErrorCode, FetchedRow, PartitionRow, RecordBatch};
use crate::VerdictView;

verus! {

/// The faults of a subject that may have one.
pub open spec fn only_if(fault: Fault, injected: bool) -> Seq<Fault> {
    if injected {
        seq![fault]
    } else {
        Seq::empty()
    }
}

pub proof fn lemma_only_if(fault: Fault, injected: bool, other: Fault)
    ensures
        only_if(fault, injected).contains(other) <==> injected && other == fault,
{
    let faults = only_if(fault, injected);
    if injected {
        assert(faults[0] == fault);
    }
}

proof fn lemma_endpoints_differ(host: Seq<char>, a: i32, b: i32)
    requires
        0 <= a,
        0 <= b,
        find::endpoint(host, a) == find::endpoint(host, b),
    ensures
        a == b,
{
    let lead = host + ":"@;
    assert(find::endpoint(host, a).skip(lead.len() as int) =~= text::dec_nat(a as nat));
    assert(find::endpoint(host, b).skip(lead.len() as int) =~= text::dec_nat(b as nat));
    naming::lemma_dec_tells_apart(a as nat, b as nat);
}

/// What brokers say of a group's coordinator, each asked at its own address.
pub open spec fn coordinators(
    state: ClusterView,
    group: Seq<char>,
    nodes: Seq<i32>,
    faults: Seq<Fault>,
) -> Seq<NodeView> {
    nodes.map_values(
        |n: i32|
            {
                let reply = offsets::spec_coordinator(state, group, n, faults);
                NodeView { node_id: n, addr: find::endpoint(reply.host, reply.port) }
            },
    )
}

/// What brokers say of a group's coordinator, as
/// `cluster/brokers-agree-on-the-coordinator` sees it.
pub proof fn law_coordinator_agreement_is_calibrated(
    state: ClusterView,
    group: Seq<char>,
    nodes: Seq<i32>,
    whoever: bool,
)
    requires
        nodes.len() >= 2,
        0 <= state.port_of(nodes[0]),
        0 <= state.port_of(nodes[1]),
        state.port_of(nodes[0]) != state.port_of(nodes[1]),
    ensures
        ({
            let said = coordinators(
                state,
                group,
                nodes,
                only_if(Fault::CoordinatorIsWhoeverAsked, whoever),
            );
            &&& !whoever ==> server_cluster::spec_judge_coordinators(said, group)
                == VerdictView::Pass
            &&& whoever ==> server_cluster::spec_judge_coordinators(said, group) is Fail
        }),
{
    let faults = only_if(Fault::CoordinatorIsWhoeverAsked, whoever);
    lemma_only_if(
        Fault::CoordinatorIsWhoeverAsked,
        whoever,
        Fault::CoordinatorIsWhoeverAsked,
    );
    let said = coordinators(state, group, nodes, faults);
    let p = server_cluster::placed_elsewhere(said[0].addr);
    calibration::lemma_first_where(said, p);
    if whoever {
        let host = "127.0.0.1"@;
        let a = state.port_of(nodes[0]);
        let b = state.port_of(nodes[1]);
        assert(said[0].addr == find::endpoint(host, a));
        assert(said[1].addr == find::endpoint(host, b));
        if said[1].addr == said[0].addr {
            lemma_endpoints_differ(host, b, a);
        }
        assert(p(said[1]));
    } else {
        assert forall|i: int| 0 <= i < said.len() implies !p(#[trigger] said[i]) by {}
    }
}

proof fn lemma_led_by(leader: i32, nodes: Seq<i32>)
    requires
        nodes.no_duplicates(),
        nodes.contains(leader),
    ensures
        ({
            let replicas = topics::led_by(leader, nodes);
            &&& replicas.no_duplicates()
            &&& replicas.len() == nodes.len()
            &&& forall|id: i32| #[trigger] replicas.contains(id) ==> nodes.contains(id)
            &&& replicas.contains(leader)
        }),
{
    let p = topics::other_than(leader);
    let rest = nodes.filter(p);
    let replicas = topics::led_by(leader, nodes);
    broadcast use vstd::seq_lib::group_filter_ensures;

    lemma_filter_keeps_apart(nodes, p);
    assert(replicas[0] == leader);
    assert forall|i: int, j: int| 0 <= i < j < replicas.len() implies replicas[i]
        != replicas[j] by {
        if i == 0 {
            assert(replicas[j] == rest[j - 1]);
            assert(p(rest[j - 1]));
        } else {
            assert(replicas[i] == rest[i - 1]);
            assert(replicas[j] == rest[j - 1]);
        }
    }
    assert forall|id: i32| #[trigger] replicas.contains(id) implies nodes.contains(id) by {
        let k = choose|k: int| 0 <= k < replicas.len() && replicas[k] == id;
        if k > 0 {
            assert(replicas[k] == rest[k - 1]);
            assert(rest.contains(id));
            nodes.lemma_filter_contains_rev(p, id);
        }
    }
    lemma_filter_drops_one(nodes, leader);
}

proof fn lemma_filter_keeps_apart(s: Seq<i32>, p: spec_fn(i32) -> bool)
    requires
        s.no_duplicates(),
    ensures
        s.filter(p).no_duplicates(),
    decreases s.len(),
{
    reveal(Seq::filter);
    if s.len() > 0 {
        let front = s.drop_last();
        lemma_filter_keeps_apart(front, p);
        broadcast use vstd::seq_lib::group_filter_ensures;

        let kept = front.filter(p);
        if p(s.last()) {
            assert forall|i: int, j: int| 0 <= i < j < s.filter(p).len() implies s.filter(p)[i]
                != s.filter(p)[j] by {
                if j == kept.len() {
                    assert(kept.contains(kept[i]));
                    front.lemma_filter_contains_rev(p, kept[i]);
                    let k = choose|k: int| 0 <= k < front.len() && front[k] == kept[i];
                    assert(s[k] != s[s.len() - 1]);
                }
            }
        }
    }
}

proof fn lemma_filter_drops_one(nodes: Seq<i32>, leader: i32)
    requires
        nodes.no_duplicates(),
    ensures
        nodes.filter(topics::other_than(leader)).len() == (if nodes.contains(leader) {
            nodes.len() - 1
        } else {
            nodes.len() as int
        }),
    decreases nodes.len(),
{
    reveal(Seq::filter);
    let p = topics::other_than(leader);
    if nodes.len() > 0 {
        let front = nodes.drop_last();
        lemma_filter_drops_one(front, leader);
        if nodes.last() == leader {
            assert(!front.contains(leader)) by {
                if front.contains(leader) {
                    let k = choose|k: int| 0 <= k < front.len() && front[k] == leader;
                    assert(nodes[k] != nodes[nodes.len() - 1]);
                }
            }
            assert(nodes[nodes.len() - 1] == leader);
        } else {
            if front.contains(leader) {
                let k = choose|k: int| 0 <= k < front.len() && front[k] == leader;
                assert(nodes[k] == leader);
            }
            if nodes.contains(leader) {
                let k = choose|k: int| 0 <= k < nodes.len() && nodes[k] == leader;
                assert(front[k] == leader);
            }
        }
    }
}

/// A partition's replicas, as `cluster/replicas-span-brokers` sees them of a
/// topic that asked for one on every broker.
pub proof fn law_replica_span_is_calibrated(
    state: ClusterView,
    name: Seq<char>,
    row: PartitionRow,
    wanted: i16,
    collapse: bool,
)
    requires
        state.live().len() > 0,
        state.node_ids().len() == wanted,
        wanted >= 2,
        ({
            let leader = state.placement(name);
            let replicas = topics::reported_replicas(
                state,
                leader,
                only_if(Fault::ReplicasCollapseToTheLeader, collapse),
            );
            &&& row.leader_id == leader
            &&& row.replicas@ == replicas
            &&& row.isr@ == replicas
        }),
    ensures
        !collapse ==> server_cluster::spec_judge_span(name, row, wanted, state.node_ids())
            == VerdictView::Pass,
        collapse ==> server_cluster::spec_judge_span(name, row, wanted, state.node_ids()) is Fail,
{
    lemma_only_if(
        Fault::ReplicasCollapseToTheLeader,
        collapse,
        Fault::ReplicasCollapseToTheLeader,
    );
    let ids = state.node_ids();
    let leader = state.placement(name);
    if !collapse {
        crate::subject::laws::law_placed_on_a_live_broker(state, name);
        assert(ids.no_duplicates());
        lemma_led_by(leader, ids);
        let replicas = row.replicas@;
        calibration::lemma_first_where(replicas, server_cluster::unlisted(ids));
        calibration::lemma_first_where(row.isr@, server_cluster::unlisted(replicas));
        assert forall|i: int| 0 <= i < replicas.len() implies ids.contains(
            #[trigger] replicas[i],
        ) by {
            assert(replicas.contains(replicas[i]));
        }
        assert forall|i: int| 0 <= i < replicas.len() implies replicas.contains(
            #[trigger] row.isr@[i],
        ) by {}
    }
}

/// Bookkeeping at a superseded epoch, as `txn/stale-epoch-is-fenced` sees it.
pub proof fn law_stale_epoch_is_calibrated(
    state: ClusterView,
    id: Seq<char>,
    stale: i16,
    code: ErrorCode,
    ignores: bool,
)
    requires
        state.txns.contains_key(id),
        stale != state.txns[id].epoch,
        code.code == txn::spec_epoch_check(
            state,
            id,
            stale,
            only_if(Fault::TxnIgnoresProducerEpoch, ignores),
        ),
    ensures
        !ignores ==> server_txn::spec_judge_stale(Some(code), id, stale, state.txns[id].epoch)
            == VerdictView::Pass,
        ignores ==> server_txn::spec_judge_stale(
            Some(code),
            id,
            stale,
            state.txns[id].epoch,
        ) is Fail,
{
    lemma_only_if(Fault::TxnIgnoresProducerEpoch, ignores, Fault::TxnIgnoresProducerEpoch);
}

/// Whether a row is what a reader makes of a log, read committed.
pub open spec fn shows_log(row: FetchedRow, log: LogView) -> bool {
    &&& row.last_stable_offset == log.stable_offset()
    &&& row.aborted is Some
    &&& row.aborted->Some_0@ == log.aborted.map_values(|a: (i64, i64)| a.0)
    &&& row.records is Some
    &&& row.records->Some_0@ == log.bytes
}

/// A transaction that was committed, as `txn/commit-is-visible-to-readers`
/// sees it of a log with no other open.
pub proof fn law_visible_commit_is_calibrated(
    log: LogView,
    producer_id: i64,
    row: FetchedRow,
    budget: u64,
    disowns: bool,
)
    requires
        log.open.dom() == set![producer_id],
        log.open[producer_id] <= log.next_offset < i64::MAX,
        log.aborted.len() == 0,
        log.bytes.len() > 0,
        shows_log(
            row,
            txn::ended_log(
                log,
                producer_id,
                true,
                only_if(Fault::TxnCommitMarksAborted, disowns),
            ),
        ),
    ensures
        !disowns ==> server_txn::spec_judge_commit(
            Some(row),
            log.open[producer_id],
            producer_id,
            budget,
        ) == VerdictView::Pass,
        disowns ==> server_txn::spec_judge_commit(
            Some(row),
            log.open[producer_id],
            producer_id,
            budget,
        ) is Fail,
{
    let faults = only_if(Fault::TxnCommitMarksAborted, disowns);
    lemma_only_if(Fault::TxnCommitMarksAborted, disowns, Fault::TxnCommitMarksAborted);
    lemma_only_if(Fault::TxnCommitMarksAborted, disowns, Fault::TxnAbortListOmitted);
    let after = txn::ended_log(log, producer_id, true, faults);
    assert(log.open.dom().contains(producer_id));
    assert(after.open.dom() =~= Set::empty());
    assert(after.stable_offset() == after.next_offset);
    if disowns {
        let named = row.aborted->Some_0@;
        assert(named[0] == producer_id);
    } else {
        assert(row.aborted->Some_0@ =~= Seq::empty());
    }
}

/// A gzipped batch, as `produce/compressed-batch-passthrough` sees what the
/// log kept of it.
pub proof fn law_passthrough_is_calibrated(
    partition: ProducePartitionView,
    batches: Seq<RecordBatch>,
    sent: Seq<u8>,
    rewritten: Seq<u8>,
    rewrites: bool,
)
    requires
        partition.records == Some(sent),
        partition.rewritten == Some(rewritten),
        batches.len() > 0,
        batches[0].records is Compressed,
        log::rewriting_fault(batches[0].attributes) == Some(Fault::ProduceRewritesGzipBatches),
        sent.len() >= server_log::BATCH_HEAD,
        !server_log::is_as_sent(sent, rewritten),
    ensures
        ({
            let kept = log::spec_stored(
                partition,
                batches,
                only_if(Fault::ProduceRewritesGzipBatches, rewrites),
            );
            &&& !rewrites ==> server_log::spec_judge_passthrough(sent, kept) == VerdictView::Pass
            &&& rewrites ==> server_log::spec_judge_passthrough(sent, kept) is Fail
        }),
{
    lemma_only_if(
        Fault::ProduceRewritesGzipBatches,
        rewrites,
        Fault::ProduceRewritesGzipBatches,
    );
}

proof fn lemma_first_difference(a: Seq<u8>, b: Seq<u8>, from: int, at: int)
    requires
        a.len() == b.len(),
        0 <= from <= at < a.len(),
        a[at] != b[at],
    ensures
        server_log::first_difference(a, b, from) is Some,
    decreases a.len() - from,
{
    if a[from] == b[from] {
        lemma_first_difference(a, b, from + 1, at);
    }
}

/// A stored batch with its last byte changed, as `fetch/batch-integrity` sees
/// it, whatever the bytes decode to.
pub proof fn law_corruption_is_calibrated(
    sent: Seq<u8>,
    decoded: Result<Vec<RecordBatch>, String>,
)
    requires
        sent.len() > server_log::BEFORE_CRC,
    ensures
        server_log::spec_batch_integrity(sent, log::spoiled(sent), decoded) is Fail,
{
    let got = log::spoiled(sent);
    let last = sent.last();
    assert(last ^ 1 != last) by (bit_vector);
    let at = sent.len() - 1;
    assert(got[at] != sent[at]);
    lemma_first_difference(got, sent, server_log::BEFORE_CRC as int, at);
}

/// Whether an assignment is what a reader makes of the subject's.
pub open spec fn shows_assignment(
    read: Seq<AssignedTopic>,
    given: Seq<AssignedTopicView>,
) -> bool {
    &&& read.len() == given.len()
    &&& forall|i: int|
        0 <= i < given.len() ==> (#[trigger] read[i]).topic_id@ == given[i].topic_id
            && read[i].partitions@ == given[i].partitions
}

/// An assignment for a subscription to one topic, as
/// `consumer-group/assigns-subscription` sees it.
pub proof fn law_assignment_is_calibrated(
    state: ClusterView,
    produced: ProducedView,
    assigned: Seq<AssignedTopic>,
    nothing: bool,
)
    requires
        state.created.contains_key(produced.topic),
        state.created[produced.topic] == produced.topic_id@,
        shows_assignment(
            assigned,
            groups::assigned_topics(
                groups::assignment_of(
                    state,
                    seq![produced.topic],
                    only_if(Fault::ConsumerGroupAssignsNothing, nothing),
                ),
            ),
        ),
    ensures
        !nothing ==> server_groups::spec_judge_assigned(assigned, produced) == VerdictView::Pass,
        nothing ==> server_groups::spec_judge_assigned(assigned, produced) is Fail,
{
    lemma_only_if(
        Fault::ConsumerGroupAssignsNothing,
        nothing,
        Fault::ConsumerGroupAssignsNothing,
    );
    if !nothing {
        lemma_one_assigned(state, produced.topic);
        assert(assigned.len() == 1);
        assert(find::assigns(produced.topic_id)(assigned[0]));
        assert(assigned[0].partitions@ == seq![0i32]);
        assert(seq![0i32][0] == 0);
    }
}

proof fn lemma_one_assigned(state: ClusterView, topic: Seq<char>)
    requires
        state.created.contains_key(topic),
    ensures
        groups::assigned_ids(state.created, seq![topic]) == seq![state.created[topic]],
{
    let one = seq![topic];
    assert(one.drop_last() =~= Seq::empty());
    reveal_with_fuel(groups::assigned_ids, 2);
    assert(groups::assigned_ids(state.created, one) =~= seq![state.created[topic]]);
}

/// A heartbeat that states nothing new, as
/// `consumer-group/omitted-subscription-keeps-assignment` sees its answer.
pub proof fn law_quiet_heartbeat_is_calibrated(
    state: ClusterView,
    ask: ConsumerGroupAskView,
    produced: ProducedView,
    read: Option<Vec<AssignedTopic>>,
    revokes: bool,
)
    requires
        ask.subscribed is None,
        state.members.contains_key((ask.group_id, ask.member_id)),
        ({
            let member = state.members[(ask.group_id, ask.member_id)];
            &&& member.subscribed == seq![produced.topic]
            &&& member.told == Some(seq![produced.topic_id@])
        }),
        state.created.contains_key(produced.topic),
        state.created[produced.topic] == produced.topic_id@,
        ({
            let reply = groups::steady(
                state,
                ask,
                only_if(Fault::ConsumerGroupNullSubscriptionRevokes, revokes),
            ).1;
            match reply.assignment {
                None => read is None,
                Some(given) => read is Some && shows_assignment(read->Some_0@, given),
            }
        }),
    ensures
        !revokes ==> server_groups::spec_judge_quiet(read, produced) == VerdictView::Pass,
        revokes ==> server_groups::spec_judge_quiet(read, produced) is Fail,
{
    let fault = Fault::ConsumerGroupNullSubscriptionRevokes;
    lemma_only_if(fault, revokes, fault);
    lemma_only_if(fault, revokes, Fault::ConsumerGroupAssignsNothing);
    lemma_one_assigned(state, produced.topic);
    if revokes {
        assert(groups::assigned_ids(state.created, Seq::empty()) =~= Seq::empty());
        assert(seq![produced.topic_id@].len() == 1);
        assert(read->Some_0@.len() == 0);
    }
}

/// The first frame after a produce that asked for no answer, and a request
/// that asked for one, as `produce/acks-zero-is-silent` sees it: without the
/// fault the produce is answered by no frame, so the first is the other's.
pub proof fn law_silence_is_calibrated(
    reply: ProduceReplyView,
    asked: Asked,
    frame: Seq<u8>,
    answers: bool,
)
    requires
        asked.correlation_id == server_log::SILENT_CORRELATION,
        frame.len() >= 4,
        ({
            let faults = only_if(Fault::ProduceAnswersAcksZero, answers);
            match serve::spec_produce_answer(Some(reply), 0, asked, faults) {
                AnswerView::Frame(framing, _) => server_log::be_i32(frame)
                    == framing.correlation_id,
                _ => server_log::be_i32(frame) == server_log::FOLLOW_UP_CORRELATION,
            }
        }),
    ensures
        !answers ==> server_log::spec_judge_silence(frame) == VerdictView::Pass,
        answers ==> server_log::spec_judge_silence(frame) is Fail,
{
    lemma_only_if(Fault::ProduceAnswersAcksZero, answers, Fault::ProduceAnswersAcksZero);
}

} // verus!

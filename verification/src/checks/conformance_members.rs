//! Runs of the checks on members and on committed offsets.

use vstd::prelude::*;
use vstd::string::*;

use crate::checks::asks;
use crate::checks::calibration_state;
use crate::checks::conformance;
use crate::checks::conformance::{Setting, World};
use crate::checks::conformance_groups;
use crate::checks::conformance_log;
use crate::checks::conformance_reads;
use crate::checks::ctx;
use crate::checks::ctx::ServerCtx;
use crate::checks::find;
use crate::checks::flows;
use crate::checks::flows::{Addressing, ProducedView};
use crate::checks::group_flows;
use crate::checks::server::ServerCheck;
use crate::checks::server_groups;
use crate::checks::tape;
use crate::checks::tape::{ActionOf, ErrorView, Event, FlowView, HaltView, Label};
use crate::checks::trial;
use crate::checks::trial::Deed;
use crate::subject::Fault;
use crate::subject::groups;
use crate::subject::offsets;
use crate::subject::requests::{CommitPartitionView, CommitTopicView, ConsumerGroupAskView};
use crate::subject::state::{ClusterView, CommitView, MemberView};
use crate::wire;
use crate::wire::{
    CommitTopic, ConsumerGroupAnswer, OffsetFetchAnswer, RequestOf, Response, OFFSET_FETCH,
};

verus! {

/// A ConsumerGroupHeartbeat request as the subject reads it.
pub open spec fn beating(
    group: Seq<char>,
    member_id: Seq<char>,
    epoch: i32,
    subscribed: Option<Seq<char>>,
) -> ConsumerGroupAskView {
    ConsumerGroupAskView {
        group_id: group,
        member_id,
        member_epoch: epoch,
        subscribed: match subscribed {
            Some(topic) => Some(seq![topic]),
            None => None,
        },
    }
}

/// A ConsumerGroupHeartbeat request on an open connection.
pub proof fn lemma_member(
    setting: Setting,
    tape: Seq<Event>,
    worlds: Seq<World>,
    at: int,
    conn: usize,
    version: i16,
    group: Seq<char>,
    member_id: Seq<char>,
    epoch: i32,
    subscribed: Option<Seq<char>>,
    correlation: i32,
)
    requires
        0 <= at <= tape.len(),
        conformance::is_modern(setting.schema),
        conformance::is_up(worlds[at].state),
        conformance::is_open(worlds[at], conn),
        setting.schema.consumer_group_heartbeat.min <= version <= setting.schema.consumer_group_heartbeat.max,
        forall|i: int|
            at <= i < tape.len() ==> conformance::follows(
                setting,
                tape,
                worlds,
                i,
                group_flows::spec_group_heartbeat(
                    #[trigger] tape.take(i),
                    at,
                    conn,
                    version,
                    group,
                    member_id,
                    epoch,
                    subscribed,
                    correlation,
                ),
            ),
    ensures
        match group_flows::spec_group_heartbeat(
            tape,
            at,
            conn,
            version,
            group,
            member_id,
            epoch,
            subscribed,
            correlation,
        ) {
            Ok((answer, to)) => {
                &&& at <= to <= tape.len()
                &&& to == at + 1
                &&& worlds[to].lines == worlds[at].lines
                &&& ({
                    let (after, reply) = groups::spec_consumer_group(
                        worlds[at].state,
                        beating(group, member_id, epoch, subscribed),
                        setting.faults,
                    );
                    &&& worlds[to].state == after
                    &&& conformance::shows_membership(answer, reply)
                })
                &&& conformance::is_up(worlds[to].state)
                &&& forall|i: int|
                    to <= i <= tape.len() ==> group_flows::spec_group_heartbeat(
                        #[trigger] tape.take(i),
                        at,
                        conn,
                        version,
                        group,
                        member_id,
                        epoch,
                        subscribed,
                        correlation,
                    )
                        == Ok::<(ConsumerGroupAnswer, int), HaltView>((answer, to))
            },
            Err(HaltView::Ask(_)) => true,
            _ => false,
        },
{
    conformance::lemma_group_ranges(setting.schema);
    if at < tape.len() {
        assert(tape.take(at).len() == at);
    }
    let request = RequestOf::ConsumerGroupHeartbeat { group, member_id, epoch, subscribed };
    conformance::lemma_call(
        setting,
        tape,
        worlds,
        at,
        Label::Named("ConsumerGroupHeartbeat"@),
        conn,
        version,
        correlation,
        request,
    );
}

/// A member that leaves.
pub proof fn lemma_depart(
    setting: Setting,
    tape: Seq<Event>,
    worlds: Seq<World>,
    at: int,
    conn: usize,
    version: i16,
    group: Seq<char>,
    member_id: Seq<char>,
    correlation: i32,
)
    requires
        0 <= at <= tape.len(),
        conformance::is_modern(setting.schema),
        conformance::is_up(worlds[at].state),
        conformance::is_open(worlds[at], conn),
        setting.schema.consumer_group_heartbeat.min <= version <= setting.schema.consumer_group_heartbeat.max,
        forall|i: int|
            at <= i < tape.len() ==> conformance::follows(
                setting,
                tape,
                worlds,
                i,
                group_flows::spec_leave_consumer_group(
                    #[trigger] tape.take(i),
                    at,
                    conn,
                    version,
                    group,
                    member_id,
                    correlation,
                ),
            ),
    ensures
        match group_flows::spec_leave_consumer_group(
            tape,
            at,
            conn,
            version,
            group,
            member_id,
            correlation,
        ) {
            Ok((done, to)) => {
                &&& at <= to <= tape.len()
                &&& forall|i: int|
                    to <= i <= tape.len() ==> group_flows::spec_leave_consumer_group(
                        #[trigger] tape.take(i),
                        at,
                        conn,
                        version,
                        group,
                        member_id,
                        correlation,
                    )
                        == Ok::<((), int), HaltView>((done, to))
            },
            Err(HaltView::Ask(_)) => true,
            _ => false,
        },
{
    lemma_member(
        setting,
        tape,
        worlds,
        at,
        conn,
        version,
        group,
        member_id,
        group_flows::LEAVE_EPOCH,
        None,
        correlation,
    );
}

pub proof fn lemma_consumer_group_epoch_advances(
    setting: Setting,
    ctx: ServerCtx,
    tape: Seq<Event>,
    worlds: Seq<World>,
)
    requires
        trial::is_trial(ServerCheck::ConsumerGroupEpochAdvances, setting.faults),
        conformance::is_set(setting, ctx, worlds[0].state),
        !worlds[0].state.members.contains_key(
            (ctx.spec_check_group("epoch"@), ctx.spec_member_id("epoch"@)),
        ),
        forall|i: int|
            0 <= i < tape.len() ==> conformance::follows(
                setting,
                tape,
                worlds,
                i,
                server_groups::spec_consumer_group_epoch_advances(ctx, #[trigger] tape.take(i)),
            ),
    ensures
        trial::judged(setting.faults, server_groups::spec_consumer_group_epoch_advances(ctx, tape)),
{
    assert(trial::spares(setting.faults, Deed::Find));
    conformance::lemma_group_ranges(setting.schema);
    reveal_strlit("odradek-acceptance-");
    let version = setting.schema.consumer_group_heartbeat.max;
    let group = ctx.spec_check_group("epoch"@);
    let member_id = ctx.spec_member_id("epoch"@);
    conformance_groups::lemma_coordinator_conn(setting, ctx, tape, worlds, 0, group);
    match group_flows::spec_coordinator_conn(ctx, tape, 0, group) {
        Ok((conn, at)) => {
            conformance::lemma_fresh_topic(setting, ctx, tape, worlds, at, "cgnone"@);
            match ctx::spec_fresh_topic(ctx, tape, at, "cgnone"@) {
                Ok((topic, named)) => {
                    lemma_member(
                        setting,
                        tape,
                        worlds,
                        named,
                        conn,
                        version,
                        group,
                        member_id,
                        0,
                        Some(topic),
                        150,
                    );
                    match group_flows::spec_group_heartbeat(
                        tape,
                        named,
                        conn,
                        version,
                        group,
                        member_id,
                        0,
                        Some(topic),
                        150,
                    ) {
                        Ok((_, told)) => {
                            if setting.faults.len() == 0 {
                                lemma_depart(
                                    setting,
                                    tape,
                                    worlds,
                                    told,
                                    conn,
                                    version,
                                    group,
                                    member_id,
                                    151,
                                );
                            }
                        },
                        Err(_) => {},
                    }
                },
                Err(_) => {},
            }
        },
        Err(_) => {},
    }
}

#[verifier::rlimit(30)]
pub proof fn lemma_consumer_group_fenced_epoch(
    setting: Setting,
    ctx: ServerCtx,
    tape: Seq<Event>,
    worlds: Seq<World>,
)
    requires
        trial::is_trial(ServerCheck::ConsumerGroupFencedEpoch, setting.faults),
        conformance::is_set(setting, ctx, worlds[0].state),
        !worlds[0].state.members.contains_key(
            (ctx.spec_check_group("cgfence"@), ctx.spec_member_id("fence"@)),
        ),
        forall|i: int|
            0 <= i < tape.len() ==> conformance::follows(
                setting,
                tape,
                worlds,
                i,
                server_groups::spec_consumer_group_fenced_epoch(ctx, #[trigger] tape.take(i)),
            ),
    ensures
        trial::judged(setting.faults, server_groups::spec_consumer_group_fenced_epoch(ctx, tape)),
{
    assert(trial::spares(setting.faults, Deed::Find));
    conformance::lemma_group_ranges(setting.schema);
    let version = setting.schema.consumer_group_heartbeat.max;
    let group = ctx.spec_check_group("cgfence"@);
    let member_id = ctx.spec_member_id("fence"@);
    conformance_groups::lemma_coordinator_conn(setting, ctx, tape, worlds, 0, group);
    match group_flows::spec_coordinator_conn(ctx, tape, 0, group) {
        Ok((conn, at)) => {
            conformance::lemma_fresh_topic(setting, ctx, tape, worlds, at, "cgfence"@);
            match ctx::spec_fresh_topic(ctx, tape, at, "cgfence"@) {
                Ok((topic, named)) => {
                    lemma_member(
                        setting,
                        tape,
                        worlds,
                        named,
                        conn,
                        version,
                        group,
                        member_id,
                        0,
                        Some(topic),
                        190,
                    );
                    match group_flows::spec_group_heartbeat(
                        tape,
                        named,
                        conn,
                        version,
                        group,
                        member_id,
                        0,
                        Some(topic),
                        190,
                    ) {
                        Ok((joined, told)) => {
                            let ahead = joined.member_epoch.wrapping_add(99);
                            lemma_member(
                                setting,
                                tape,
                                worlds,
                                told,
                                conn,
                                version,
                                group,
                                member_id,
                                ahead,
                                None,
                                191,
                            );
                            match group_flows::spec_group_heartbeat(
                                tape,
                                told,
                                conn,
                                version,
                                group,
                                member_id,
                                ahead,
                                None,
                                191,
                            ) {
                                Ok((_, refused)) => {
                                    lemma_depart(
                                        setting,
                                        tape,
                                        worlds,
                                        refused,
                                        conn,
                                        version,
                                        group,
                                        member_id,
                                        192,
                                    );
                                },
                                Err(_) => {},
                            }
                        },
                        Err(_) => {},
                    }
                },
                Err(_) => {},
            }
        },
        Err(_) => {},
    }
}

/// The first heartbeat is the only one where it brings an assignment.
proof fn lemma_assigned_at_once(
    ctx: ServerCtx,
    tape: Seq<Event>,
    at: int,
    conn: usize,
    version: i16,
    group: Seq<char>,
    member_id: Seq<char>,
    topic: Seq<char>,
    base: i32,
)
    requires
        group_flows::spec_group_heartbeat(
            tape,
            at,
            conn,
            version,
            group,
            member_id,
            0,
            Some(topic),
            ctx::spec_correlation(base, 0),
        ) matches Ok((answer, _)) ==> answer.error.ok() && group_flows::spec_assigned(answer).len() > 0,
    ensures
        group_flows::spec_settle_assignment(
            ctx,
            tape,
            at,
            conn,
            version,
            group,
            member_id,
            topic,
            base,
            0,
            0,
        ) == group_flows::spec_group_heartbeat(
            tape,
            at,
            conn,
            version,
            group,
            member_id,
            0,
            Some(topic),
            ctx::spec_correlation(base, 0),
        ),
{
}

/// A member that subscribes to a topic that exists.
proof fn lemma_settle_assignment(
    setting: Setting,
    ctx: ServerCtx,
    tape: Seq<Event>,
    worlds: Seq<World>,
    at: int,
    conn: usize,
    version: i16,
    group: Seq<char>,
    member_id: Seq<char>,
    topic: Seq<char>,
    base: i32,
)
    requires
        trial::spares(setting.faults, Deed::Beat),
        0 <= at <= tape.len(),
        conformance::is_modern(setting.schema),
        conformance::is_up(worlds[at].state),
        conformance::is_open(worlds[at], conn),
        setting.schema.consumer_group_heartbeat.min <= version <= setting.schema.consumer_group_heartbeat.max,
        worlds[at].state.created.contains_key(topic),
        !worlds[at].state.members.contains_key((group, member_id)),
        forall|i: int|
            at <= i < tape.len() ==> conformance::follows(
                setting,
                tape,
                worlds,
                i,
                group_flows::spec_settle_assignment(
                    ctx,
                    #[trigger] tape.take(i),
                    at,
                    conn,
                    version,
                    group,
                    member_id,
                    topic,
                    base,
                    0,
                    0,
                ),
            ),
    ensures
        match group_flows::spec_settle_assignment(
            ctx,
            tape,
            at,
            conn,
            version,
            group,
            member_id,
            topic,
            base,
            0,
            0,
        ) {
            Ok((answer, to)) => {
                &&& at <= to <= tape.len()
                &&& worlds[to].lines == worlds[at].lines
                &&& conformance::is_up(worlds[to].state)
                &&& answer.member_epoch == 1
                &&& ({
                    let ids = seq![worlds[at].state.created[topic]];
                    &&& worlds[to].state == (ClusterView {
                        members: worlds[at].state.members.insert(
                            (group, member_id),
                            MemberView { epoch: 1, subscribed: seq![topic], told: Some(ids) },
                        ),
                        ..worlds[at].state
                    })
                    &&& calibration_state::shows_assignment(
                        group_flows::spec_assigned(answer),
                        groups::assigned_topics(ids),
                    )
                })
                &&& forall|i: int|
                    to <= i <= tape.len() ==> group_flows::spec_settle_assignment(
                        ctx,
                        #[trigger] tape.take(i),
                        at,
                        conn,
                        version,
                        group,
                        member_id,
                        topic,
                        base,
                        0,
                        0,
                    )
                        == Ok::<(ConsumerGroupAnswer, int), HaltView>((answer, to))
            },
            Err(HaltView::Ask(_)) => true,
            _ => false,
        },
{
    let state = worlds[at].state;
    let names = seq![topic];
    assert(names.drop_last() =~= Seq::empty());
    reveal_with_fuel(groups::assigned_ids, 2);
    assert(groups::assigned_ids(state.created, names) =~= seq![state.created[topic]]);
    assert forall|i: int| at <= i < tape.len() implies conformance::follows(
        setting,
        tape,
        worlds,
        i,
        group_flows::spec_group_heartbeat(
            #[trigger] tape.take(i),
            at,
            conn,
            version,
            group,
            member_id,
            0,
            Some(topic),
            ctx::spec_correlation(base, 0),
        ),
    ) by {
        assert(
            group_flows::spec_group_heartbeat(
                tape.take(i),
                at,
                conn,
                version,
                group,
                member_id,
                0,
                Some(topic),
                ctx::spec_correlation(base, 0),
            ) matches Err(halt) ==> group_flows::spec_settle_assignment(ctx, tape.take(i), at, conn, version, group, member_id, topic, base, 0, 0) == Err::<(ConsumerGroupAnswer, int), HaltView>(halt)
        );
    }
    lemma_member(
        setting,
        tape,
        worlds,
        at,
        conn,
        version,
        group,
        member_id,
        0,
        Some(topic),
        ctx::spec_correlation(base, 0),
    );
    lemma_assigned_at_once(ctx, tape, at, conn, version, group, member_id, topic, base);
    assert forall|i: int| at < i <= tape.len() implies group_flows::spec_settle_assignment(
        ctx,
        #[trigger] tape.take(i),
        at,
        conn,
        version,
        group,
        member_id,
        topic,
        base,
        0,
        0,
    )
        == group_flows::spec_group_heartbeat(
            tape.take(i),
            at,
            conn,
            version,
            group,
            member_id,
            0,
            Some(topic),
            ctx::spec_correlation(base, 0),
        ) by {
        lemma_assigned_at_once(ctx, tape.take(i), at, conn, version, group, member_id, topic, base);
    }
}

/// A member that is given nothing however often it beats.
proof fn lemma_never_assigned(
    setting: Setting,
    ctx: ServerCtx,
    tape: Seq<Event>,
    worlds: Seq<World>,
    at: int,
    conn: usize,
    version: i16,
    group: Seq<char>,
    member_id: Seq<char>,
    topic: Seq<char>,
    base: i32,
    attempt: int,
    epoch: i32,
)
    requires
        trial::is_trial(ServerCheck::ConsumerGroupAssignsSubscription, setting.faults),
        setting.faults.len() > 0,
        0 <= at <= tape.len(),
        0 <= attempt,
        conformance::is_modern(setting.schema),
        conformance::is_up(worlds[at].state),
        conformance::is_open(worlds[at], conn),
        setting.schema.consumer_group_heartbeat.min <= version
            <= setting.schema.consumer_group_heartbeat.max,
        if attempt == 0 {
            epoch == 0 && !worlds[at].state.members.contains_key((group, member_id))
        } else {
            &&& epoch == 1
            &&& worlds[at].state.members.contains_key((group, member_id))
            &&& worlds[at].state.members[(group, member_id)].epoch == 1
        },
        forall|i: int|
            at <= i < tape.len() ==> conformance::follows(
                setting,
                tape,
                worlds,
                i,
                group_flows::spec_settle_assignment(
                    ctx,
                    #[trigger] tape.take(i),
                    at,
                    conn,
                    version,
                    group,
                    member_id,
                    topic,
                    base,
                    attempt,
                    epoch,
                ),
            ),
    ensures
        match group_flows::spec_settle_assignment(
            ctx,
            tape,
            at,
            conn,
            version,
            group,
            member_id,
            topic,
            base,
            attempt,
            epoch,
        ) {
            Ok(_) => false,
            Err(HaltView::Ask(_)) => true,
            Err(halt) => trial::fails(halt),
        },
    decreases ctx.config.spec_settle_attempts() - attempt,
{
    if attempt < ctx.config.spec_settle_attempts() {
        conformance::lemma_pause_between(setting, tape, worlds, at, attempt);
        match tape::spec_pause_between(tape, at, attempt) {
            Ok((_, paused)) => {
                let subscribed = if attempt == 0 {
                    Some(topic)
                } else {
                    None
                };
                let correlation = ctx::spec_correlation(base, attempt);
                lemma_member(
                    setting,
                    tape,
                    worlds,
                    paused,
                    conn,
                    version,
                    group,
                    member_id,
                    epoch,
                    subscribed,
                    correlation,
                );
                match group_flows::spec_group_heartbeat(
                    tape,
                    paused,
                    conn,
                    version,
                    group,
                    member_id,
                    epoch,
                    subscribed,
                    correlation,
                ) {
                    Ok((answer, told)) => {
                        assert(group_flows::spec_assigned(answer).len() == 0);
                        lemma_never_assigned(
                            setting,
                            ctx,
                            tape,
                            worlds,
                            told,
                            conn,
                            version,
                            group,
                            member_id,
                            topic,
                            base,
                            attempt + 1,
                            answer.member_epoch,
                        );
                    },
                    Err(_) => {},
                }
            },
            Err(_) => {},
        }
    }
}

#[verifier::rlimit(30)]
pub proof fn lemma_consumer_group_assigns_subscription(
    setting: Setting,
    ctx: ServerCtx,
    tape: Seq<Event>,
    worlds: Seq<World>,
)
    requires
        trial::is_trial(ServerCheck::ConsumerGroupAssignsSubscription, setting.faults),
        conformance::is_set(setting, ctx, worlds[0].state),
        !worlds[0].state.members.contains_key(
            (ctx.spec_check_group("cgassign"@), ctx.spec_member_id("assign"@)),
        ),
        forall|i: int|
            0 <= i < tape.len() ==> conformance::follows(
                setting,
                tape,
                worlds,
                i,
                server_groups::spec_consumer_group_assigns_subscription(
                    ctx,
                    #[trigger] tape.take(i),
                ),
            ),
    ensures
        trial::judged(
            setting.faults,
            server_groups::spec_consumer_group_assigns_subscription(ctx, tape),
        ),
{
    assert(trial::spares(setting.faults, Deed::Find));
    assert(trial::spares(setting.faults, Deed::Write));
    assert(trial::spares(setting.faults, Deed::Topic));
    assert(trial::spares(setting.faults, Deed::Cluster));
    conformance::lemma_group_ranges(setting.schema);
    let version = setting.schema.consumer_group_heartbeat.max;
    let group = ctx.spec_check_group("cgassign"@);
    let member_id = ctx.spec_member_id("assign"@);
    conformance_log::lemma_produce_flow(
        setting,
        ctx,
        tape,
        worlds,
        0,
        "cgassign"@,
        Addressing::Name,
    );
    match flows::spec_produce_flow(ctx, tape, 0, "cgassign"@, Addressing::Name) {
        Ok((produced, at)) => {
            conformance_groups::lemma_coordinator_conn(setting, ctx, tape, worlds, at, group);
            match group_flows::spec_coordinator_conn(ctx, tape, at, group) {
                Ok((conn, found)) => {
                    if setting.faults.len() > 0 {
                        lemma_never_assigned(
                            setting,
                            ctx,
                            tape,
                            worlds,
                            found,
                            conn,
                            version,
                            group,
                            member_id,
                            produced.topic,
                            160,
                            0,
                            0,
                        );
                    } else {
                        lemma_settle_assignment(
                            setting,
                            ctx,
                            tape,
                            worlds,
                            found,
                            conn,
                            version,
                            group,
                            member_id,
                            produced.topic,
                            160,
                        );
                        match group_flows::spec_settle_assignment(
                            ctx,
                            tape,
                            found,
                            conn,
                            version,
                            group,
                            member_id,
                            produced.topic,
                            160,
                            0,
                            0,
                        ) {
                            Ok((answer, settled)) => {
                                lemma_depart(
                                    setting,
                                    tape,
                                    worlds,
                                    settled,
                                    conn,
                                    version,
                                    group,
                                    member_id,
                                    169,
                                );
                                let given = groups::assigned_topics(seq![produced.topic_id@]);
                                let read = group_flows::spec_assigned(answer);
                                assert(read[0].topic_id@ == given[0].topic_id);
                                assert(find::assigns(produced.topic_id)(read[0]));
                                assert(given[0].partitions[0] == 0);
                            },
                            Err(_) => {},
                        }
                    }
                },
                Err(_) => {},
            }
        },
        Err(_) => {},
    }
}

#[verifier::rlimit(40)]
pub proof fn lemma_consumer_group_omitted_subscription(
    setting: Setting,
    ctx: ServerCtx,
    tape: Seq<Event>,
    worlds: Seq<World>,
)
    requires
        trial::is_trial(ServerCheck::ConsumerGroupOmittedSubscription, setting.faults),
        conformance::is_set(setting, ctx, worlds[0].state),
        !worlds[0].state.members.contains_key(
            (ctx.spec_check_group("cgsteady"@), ctx.spec_member_id("steady"@)),
        ),
        forall|i: int|
            0 <= i < tape.len() ==> conformance::follows(
                setting,
                tape,
                worlds,
                i,
                server_groups::spec_consumer_group_omitted_subscription(
                    ctx,
                    #[trigger] tape.take(i),
                ),
            ),
    ensures
        trial::judged(
            setting.faults,
            server_groups::spec_consumer_group_omitted_subscription(ctx, tape),
        ),
{
    assert(trial::spares(setting.faults, Deed::Beat));
    assert(trial::spares(setting.faults, Deed::Find));
    assert(trial::spares(setting.faults, Deed::Write));
    assert(trial::spares(setting.faults, Deed::Topic));
    assert(trial::spares(setting.faults, Deed::Cluster));
    conformance::lemma_group_ranges(setting.schema);
    let version = setting.schema.consumer_group_heartbeat.max;
    let group = ctx.spec_check_group("cgsteady"@);
    let member_id = ctx.spec_member_id("steady"@);
    conformance_log::lemma_produce_flow(
        setting,
        ctx,
        tape,
        worlds,
        0,
        "cgsteady"@,
        Addressing::Name,
    );
    match flows::spec_produce_flow(ctx, tape, 0, "cgsteady"@, Addressing::Name) {
        Ok((produced, at)) => {
            conformance_groups::lemma_coordinator_conn(setting, ctx, tape, worlds, at, group);
            match group_flows::spec_coordinator_conn(ctx, tape, at, group) {
                Ok((conn, found)) => {
                    lemma_settle_assignment(
                        setting,
                        ctx,
                        tape,
                        worlds,
                        found,
                        conn,
                        version,
                        group,
                        member_id,
                        produced.topic,
                        170,
                    );
                    match group_flows::spec_settle_assignment(
                        ctx,
                        tape,
                        found,
                        conn,
                        version,
                        group,
                        member_id,
                        produced.topic,
                        170,
                        0,
                        0,
                    ) {
                        Ok((answer, settled)) => {
                            let names = seq![produced.topic];
                            assert(names.drop_last() =~= Seq::empty());
                            reveal_with_fuel(groups::assigned_ids, 2);
                            assert(
                                groups::assigned_ids(
                                    worlds[settled].state.created,
                                    names,
                                ) =~= seq![produced.topic_id@]
                            );
                            lemma_member(
                                setting,
                                tape,
                                worlds,
                                settled,
                                conn,
                                version,
                                group,
                                member_id,
                                1,
                                None,
                                180,
                            );
                            match group_flows::spec_group_heartbeat(
                                tape,
                                settled,
                                conn,
                                version,
                                group,
                                member_id,
                                1,
                                None,
                                180,
                            ) {
                                Ok((_, told)) => {
                                    lemma_depart(
                                        setting,
                                        tape,
                                        worlds,
                                        told,
                                        conn,
                                        version,
                                        group,
                                        member_id,
                                        181,
                                    );
                                },
                                Err(_) => {},
                            }
                        },
                        Err(_) => {},
                    }
                },
                Err(_) => {},
            }
        },
        Err(_) => {},
    }
}

/// Waiting for a topic ends at the first look where it is known.
proof fn lemma_known_at_once(
    ctx: ServerCtx,
    tape: Seq<Event>,
    at: int,
    conn: usize,
    version: i16,
    topic: Seq<char>,
    base: i32,
)
    requires
        flows::spec_metadata(
            tape,
            at,
            conn,
            version,
            Some(topic),
            ctx::spec_correlation(base, 0),
        ) matches Ok((answer, _)) ==> find::knows_topic(answer, topic),
    ensures
        group_flows::spec_topic_wait(
            ctx,
            tape,
            at,
            conn,
            version,
            topic,
            base,
            0,
        ) == match flows::spec_metadata(
            tape,
            at,
            conn,
            version,
            Some(topic),
            ctx::spec_correlation(base, 0),
        ) {
            Ok((_, at)) => Ok::<((), int), HaltView>(((), at)),
            Err(halt) => Err(halt),
        },
{
}

proof fn lemma_topic_wait(
    setting: Setting,
    ctx: ServerCtx,
    tape: Seq<Event>,
    worlds: Seq<World>,
    at: int,
    conn: usize,
    version: i16,
    topic: Seq<char>,
    base: i32,
)
    requires
        trial::spares(setting.faults, Deed::Cluster),
        0 <= at <= tape.len(),
        conformance::is_modern(setting.schema),
        conformance::is_up(worlds[at].state),
        conformance::is_open(worlds[at], conn),
        setting.schema.metadata.min <= version <= setting.schema.metadata.max,
        worlds[at].state.created.contains_key(topic),
        forall|i: int|
            at <= i < tape.len() ==> conformance::follows(
                setting,
                tape,
                worlds,
                i,
                group_flows::spec_topic_wait(
                    ctx,
                    #[trigger] tape.take(i),
                    at,
                    conn,
                    version,
                    topic,
                    base,
                    0,
                ),
            ),
    ensures
        match group_flows::spec_topic_wait(ctx, tape, at, conn, version, topic, base, 0) {
            Ok((done, to)) => {
                &&& at <= to <= tape.len()
                &&& worlds[to] == worlds[at]
                &&& forall|i: int|
                    to <= i <= tape.len() ==> group_flows::spec_topic_wait(
                        ctx,
                        #[trigger] tape.take(i),
                        at,
                        conn,
                        version,
                        topic,
                        base,
                        0,
                    )
                        == Ok::<((), int), HaltView>((done, to))
            },
            Err(HaltView::Ask(_)) => true,
            _ => false,
        },
{
    let correlation = ctx::spec_correlation(base, 0);
    assert forall|i: int| at <= i < tape.len() implies conformance::follows(
        setting,
        tape,
        worlds,
        i,
        flows::spec_metadata(
            #[trigger] tape.take(i),
            at,
            conn,
            version,
            Some(topic),
            ctx::spec_correlation(base, 0),
        ),
    ) by {
        assert(
            flows::spec_metadata(
                tape.take(i),
                at,
                conn,
                version,
                Some(topic),
                ctx::spec_correlation(base, 0),
            ) matches Err(halt) ==> group_flows::spec_topic_wait(ctx, tape.take(i), at, conn, version, topic, base, 0) == Err::<((), int), HaltView>(halt)
        );
    }
    conformance_reads::lemma_topic_entry(
        setting,
        tape,
        worlds,
        at,
        conn,
        version,
        topic,
        correlation,
    );
    lemma_known_at_once(ctx, tape, at, conn, version, topic, base);
    assert forall|i: int| at < i <= tape.len() && flows::spec_metadata(
        tape,
        at,
        conn,
        version,
        Some(topic),
        ctx::spec_correlation(base, 0),
    ) is Ok implies group_flows::spec_topic_wait(ctx, #[trigger] tape.take(i), at, conn, version, topic, base, 0)
        == group_flows::spec_topic_wait(ctx, tape, at, conn, version, topic, base, 0) by {
        lemma_known_at_once(ctx, tape.take(i), at, conn, version, topic, base);
    }
}

/// Waiting for a topic that exists.
pub proof fn lemma_await_topic(
    setting: Setting,
    ctx: ServerCtx,
    tape: Seq<Event>,
    worlds: Seq<World>,
    at: int,
    conn: usize,
    topic: Seq<char>,
    base: i32,
)
    requires
        trial::spares(setting.faults, Deed::Cluster),
        0 <= at <= tape.len(),
        conformance::is_learned(setting, ctx),
        conformance::is_up(worlds[at].state),
        conformance::is_open(worlds[at], conn),
        worlds[at].state.created.contains_key(topic),
        forall|i: int|
            at <= i < tape.len() ==> conformance::follows(
                setting,
                tape,
                worlds,
                i,
                group_flows::spec_await_topic_known(
                    ctx,
                    #[trigger] tape.take(i),
                    at,
                    conn,
                    topic,
                    base,
                ),
            ),
    ensures
        match group_flows::spec_await_topic_known(ctx, tape, at, conn, topic, base) {
            Ok((done, to)) => {
                &&& at <= to <= tape.len()
                &&& worlds[to] == worlds[at]
                &&& forall|i: int|
                    to <= i <= tape.len() ==> group_flows::spec_await_topic_known(
                        ctx,
                        #[trigger] tape.take(i),
                        at,
                        conn,
                        topic,
                        base,
                    )
                        == Ok::<((), int), HaltView>((done, to))
            },
            Err(HaltView::Ask(_)) => true,
            _ => false,
        },
{
    conformance::lemma_ranges(setting.schema);
    lemma_topic_wait(
        setting,
        ctx,
        tape,
        worlds,
        at,
        conn,
        setting.schema.metadata.max,
        topic,
        base,
    );
}

/// Whether a topic is known by its name and by its id.
pub open spec fn is_known(state: ClusterView, produced: ProducedView) -> bool {
    &&& produced.topic.len() > 0
    &&& state.topic_names.contains_key(produced.topic_id@)
    &&& state.topic_names[produced.topic_id@] == produced.topic
}

/// What is kept of a commit's metadata.
pub open spec fn noted(faults: Seq<Fault>, metadata: Option<Seq<char>>) -> Option<Seq<char>> {
    if faults.contains(Fault::OffsetCommitDropsMetadata) {
        None
    } else {
        metadata
    }
}

/// What one partition's commit leaves behind.
proof fn lemma_one_commit(
    faults: Seq<Fault>,
    state: ClusterView,
    group: Seq<char>,
    topic: CommitTopicView,
    partition: CommitPartitionView,
    name: Seq<char>,
)
    requires
        topic.partitions == seq![partition],
        state.resolve(topic.name, topic.topic_id) == Some(name),
    ensures
        offsets::commit_topics(state, group, seq![topic], faults) == state.committed.insert(
            (group, name, partition.partition_index),
            offsets::kept_commit(partition, faults),
        ),
{
    let one = seq![partition];
    assert(one.drop_last() =~= Seq::empty());
    reveal_with_fuel(offsets::commit_partitions, 2);
    let all = seq![topic];
    assert(all.drop_last() =~= Seq::empty());
    reveal_with_fuel(offsets::commit_topics, 2);
}

/// An OffsetCommit request to the broker that coordinates the group.
pub proof fn lemma_commit(
    setting: Setting,
    tape: Seq<Event>,
    worlds: Seq<World>,
    at: int,
    label: Label<Seq<char>>,
    conn: usize,
    version: i16,
    correlation: i32,
    group: Seq<char>,
    offset: i64,
    metadata: Option<Seq<char>>,
    produced: ProducedView,
)
    requires
        0 <= at <= tape.len(),
        conformance::is_modern(setting.schema),
        conformance::is_up(worlds[at].state),
        conformance::is_open(worlds[at], conn),
        setting.schema.offset_commit.min <= version <= setting.schema.offset_commit.max,
        worlds[at].lines[conn as int].node_id == worlds[at].state.placement(group)
            || setting.faults.contains(Fault::AnyBrokerServesGroups),
        is_known(worlds[at].state, produced),
        forall|i: int|
            at <= i < tape.len() ==> conformance::follows(
                setting,
                tape,
                worlds,
                i,
                asks::spec_ask_offset_commit(
                    #[trigger] tape.take(i),
                    at,
                    label,
                    ActionOf::Call {
                        conn,
                        version,
                        correlation,
                        request: RequestOf::OffsetCommit {
                            group,
                            topic: group_flows::spec_offsets_topic(
                                version,
                                produced.topic,
                                produced.topic_id,
                            ),
                            offset,
                            metadata,
                        },
                    },
                ),
            ),
    ensures
        match asks::spec_ask_offset_commit(
            tape,
            at,
            label,
            ActionOf::Call {
                conn,
                version,
                correlation,
                request: RequestOf::OffsetCommit {
                    group,
                    topic: group_flows::spec_offsets_topic(
                        version,
                        produced.topic,
                        produced.topic_id,
                    ),
                    offset,
                    metadata,
                },
            },
        ) {
            Ok((topics, to)) => {
                &&& at <= to <= tape.len()
                &&& to == at + 1
                &&& worlds[to].lines == worlds[at].lines
                &&& conformance::is_up(worlds[to].state)
                &&& worlds[to].state == (ClusterView {
                    committed: worlds[at].state.committed.insert(
                        (group, produced.topic, 0i32),
                        CommitView { offset, metadata: noted(setting.faults, metadata) },
                    ),
                    ..worlds[at].state
                })
                &&& topics@.len() == 1
                &&& find::commit_for(version, produced.topic, produced.topic_id)(topics@[0])
                &&& topics@[0].partitions@.len() == 1
                &&& topics@[0].partitions@[0].ok()
                &&& forall|i: int|
                    to <= i <= tape.len() ==> asks::spec_ask_offset_commit(
                        #[trigger] tape.take(i),
                        at,
                        label,
                        ActionOf::Call {
                            conn,
                            version,
                            correlation,
                            request: RequestOf::OffsetCommit {
                                group,
                                topic: group_flows::spec_offsets_topic(
                                    version,
                                    produced.topic,
                                    produced.topic_id,
                                ),
                                offset,
                                metadata,
                            },
                        },
                    )
                        == Ok::<(Vec<CommitTopic>, int), HaltView>((topics, to))
            },
            Err(HaltView::Ask(_)) => true,
            _ => false,
        },
{
    conformance::lemma_group_ranges(setting.schema);
    if at < tape.len() {
        assert(tape.take(at).len() == at);
    }
    let request = RequestOf::OffsetCommit {
        group,
        topic: group_flows::spec_offsets_topic(version, produced.topic, produced.topic_id),
        offset,
        metadata,
    };
    conformance::lemma_call(setting, tape, worlds, at, label, conn, version, correlation, request);
    let state = worlds[at].state;
    let topic = group_flows::spec_offsets_topic(version, produced.topic, produced.topic_id);
    let partition = CommitPartitionView {
        partition_index: 0,
        committed_offset: offset,
        committed_metadata: metadata,
    };
    let asked = CommitTopicView {
        name: conformance::spelled(topic).0,
        topic_id: conformance::spelled(topic).1,
        partitions: seq![partition],
    };
    lemma_one_commit(setting.faults, state, group, asked, partition, produced.topic);
    match tape::spec_call(tape, at, label, ActionOf::Call { conn, version, correlation, request }) {
        Ok((Response::OffsetCommit(topics), _)) => {
            assert(topics@[0].name@ == topics@[0].name@);
            assert(topics@[0].partitions@[0].code == wire::NONE);
        },
        _ => {},
    }
}

/// Committing an offset of a topic.
pub proof fn lemma_commit_offset(
    setting: Setting,
    tape: Seq<Event>,
    worlds: Seq<World>,
    at: int,
    conn: usize,
    version: i16,
    group: Seq<char>,
    offset: i64,
    correlation: i32,
    produced: ProducedView,
)
    requires
        0 <= at <= tape.len(),
        conformance::is_modern(setting.schema),
        conformance::is_up(worlds[at].state),
        conformance::is_open(worlds[at], conn),
        setting.schema.offset_commit.min <= version <= setting.schema.offset_commit.max,
        worlds[at].lines[conn as int].node_id == worlds[at].state.placement(group)
            || setting.faults.contains(Fault::AnyBrokerServesGroups),
        is_known(worlds[at].state, produced),
        forall|i: int|
            at <= i < tape.len() ==> conformance::follows(
                setting,
                tape,
                worlds,
                i,
                group_flows::spec_commit_offset(
                    #[trigger] tape.take(i),
                    at,
                    conn,
                    version,
                    group,
                    produced.topic,
                    produced.topic_id,
                    offset,
                    correlation,
                ),
            ),
    ensures
        match group_flows::spec_commit_offset(
            tape,
            at,
            conn,
            version,
            group,
            produced.topic,
            produced.topic_id,
            offset,
            correlation,
        ) {
            Ok((done, to)) => {
                &&& at <= to <= tape.len()
                &&& worlds[to].lines == worlds[at].lines
                &&& conformance::is_up(worlds[to].state)
                &&& worlds[to].state == (ClusterView {
                    committed: worlds[at].state.committed.insert(
                        (group, produced.topic, 0i32),
                        CommitView { offset, metadata: None },
                    ),
                    ..worlds[at].state
                })
                &&& forall|i: int|
                    to <= i <= tape.len() ==> group_flows::spec_commit_offset(
                        #[trigger] tape.take(i),
                        at,
                        conn,
                        version,
                        group,
                        produced.topic,
                        produced.topic_id,
                        offset,
                        correlation,
                    )
                        == Ok::<((), int), HaltView>((done, to))
            },
            Err(HaltView::Ask(_)) => true,
            _ => false,
        },
{
    lemma_commit(
        setting,
        tape,
        worlds,
        at,
        Label::Named("OffsetCommit"@),
        conn,
        version,
        correlation,
        group,
        offset,
        None,
        produced,
    );
}

/// An OffsetFetch request on an open connection.
pub proof fn lemma_offset_fetch(
    setting: Setting,
    tape: Seq<Event>,
    worlds: Seq<World>,
    at: int,
    conn: usize,
    version: i16,
    group: Seq<char>,
    correlation: i32,
    produced: ProducedView,
)
    requires
        0 <= at <= tape.len(),
        conformance::is_modern(setting.schema),
        conformance::is_served(worlds[at], conn),
        setting.schema.offset_fetch.min <= version <= setting.schema.offset_fetch.max,
        is_known(worlds[at].state, produced),
        forall|i: int|
            at <= i < tape.len() ==> conformance::follows(
                setting,
                tape,
                worlds,
                i,
                group_flows::spec_offset_fetch(
                    #[trigger] tape.take(i),
                    at,
                    conn,
                    version,
                    group,
                    produced.topic,
                    produced.topic_id,
                    correlation,
                ),
            ),
    ensures
        match group_flows::spec_offset_fetch(
            tape,
            at,
            conn,
            version,
            group,
            produced.topic,
            produced.topic_id,
            correlation,
        ) {
            Ok((answer, to)) => {
                &&& at <= to <= tape.len()
                &&& to == at + 1
                &&& worlds[to].lines == worlds[at].lines
                &&& worlds[to].state == worlds[at].state
                &&& ({
                    let kept = offsets::spec_lookup(
                        worlds[at].state,
                        group,
                        produced.topic,
                        0,
                        setting.faults,
                    );
                    &&& group_flows::spec_committed_row(
                        answer,
                        version,
                        group,
                        produced.topic,
                        produced.topic_id,
                    ) matches Ok((code, offset)) && code.ok() && offset == kept.offset
                    &&& group_flows::spec_first_metadata(answer, version) == kept.metadata
                })
                &&& forall|i: int|
                    to <= i <= tape.len() ==> group_flows::spec_offset_fetch(
                        #[trigger] tape.take(i),
                        at,
                        conn,
                        version,
                        group,
                        produced.topic,
                        produced.topic_id,
                        correlation,
                    )
                        == Ok::<(OffsetFetchAnswer, int), HaltView>((answer, to))
            },
            Err(HaltView::Ask(_)) => true,
            _ => false,
        },
{
    conformance::lemma_group_ranges(setting.schema);
    if at < tape.len() {
        assert(tape.take(at).len() == at);
    }
    let request = RequestOf::OffsetFetch {
        group,
        topic: group_flows::spec_offsets_topic(version, produced.topic, produced.topic_id),
        batched: version >= wire::OFFSET_FETCH_BATCHED,
    };
    conformance::lemma_call(
        setting,
        tape,
        worlds,
        at,
        Label::Named("OffsetFetch"@),
        conn,
        version,
        correlation,
        request,
    );
    match tape::spec_call(
        tape,
        at,
        Label::Named("OffsetFetch"@),
        ActionOf::Call { conn, version, correlation, request },
    ) {
        Ok((Response::OffsetFetch(answer), _)) => {
            if version >= wire::OFFSET_FETCH_BATCHED {
                let entry = answer.groups@[0];
                assert(find::for_group(group)(entry));
                let row = entry.topics@[0];
                assert(row.name@ == row.name@);
                assert(find::committed_for(version, produced.topic, produced.topic_id)(row));
                assert(entry.topics@[0].partitions@[0].error.code == wire::NONE);
            } else {
                let row = answer.topics@[0];
                assert(row.name@ == row.name@);
                assert(find::committed_for(version, produced.topic, produced.topic_id)(row));
                assert(answer.topics@[0].partitions@[0].error.code == wire::NONE);
            }
        },
        _ => {},
    }
}

/// Reading a committed offset.
pub proof fn lemma_fetch_committed(
    setting: Setting,
    tape: Seq<Event>,
    worlds: Seq<World>,
    at: int,
    conn: usize,
    version: i16,
    group: Seq<char>,
    correlation: i32,
    produced: ProducedView,
)
    requires
        0 <= at <= tape.len(),
        conformance::is_modern(setting.schema),
        conformance::is_served(worlds[at], conn),
        setting.schema.offset_fetch.min <= version <= setting.schema.offset_fetch.max,
        is_known(worlds[at].state, produced),
        forall|i: int|
            at <= i < tape.len() ==> conformance::follows(
                setting,
                tape,
                worlds,
                i,
                group_flows::spec_fetch_committed(
                    #[trigger] tape.take(i),
                    at,
                    conn,
                    version,
                    group,
                    produced.topic,
                    produced.topic_id,
                    correlation,
                ),
            ),
    ensures
        match group_flows::spec_fetch_committed(
            tape,
            at,
            conn,
            version,
            group,
            produced.topic,
            produced.topic_id,
            correlation,
        ) {
            Ok((got, to)) => {
                &&& at <= to <= tape.len()
                &&& worlds[to].lines == worlds[at].lines
                &&& worlds[to].state == worlds[at].state
                &&& got == offsets::spec_lookup(
                    worlds[at].state,
                    group,
                    produced.topic,
                    0,
                    setting.faults,
                ).offset
                &&& forall|i: int|
                    to <= i <= tape.len() ==> group_flows::spec_fetch_committed(
                        #[trigger] tape.take(i),
                        at,
                        conn,
                        version,
                        group,
                        produced.topic,
                        produced.topic_id,
                        correlation,
                    )
                        == Ok::<(i64, int), HaltView>((got, to))
            },
            Err(HaltView::Ask(_)) => true,
            _ => false,
        },
{
    lemma_offset_fetch(setting, tape, worlds, at, conn, version, group, correlation, produced);
}

/// The first attempt at a commit; what comes of one that is refused is left
/// out.
pub open spec fn committed_at_once(
    ctx: ServerCtx,
    tape: Seq<Event>,
    at: int,
    group: Seq<char>,
    produced: ProducedView,
    offset: i64,
    version: i16,
    base: i32,
) -> FlowView<usize> {
    match group_flows::spec_coordinator_conn(ctx, tape, at, group) {
        Err(halt) => Err(halt),
        Ok((conn, at)) => match group_flows::spec_await_topic_known(
            ctx,
            tape,
            at,
            conn,
            produced.topic,
            base,
        ) {
            Err(halt) => Err(halt),
            Ok((_, at)) => match group_flows::spec_commit_offset(
                tape,
                at,
                conn,
                version,
                group,
                produced.topic,
                produced.topic_id,
                offset,
                base.wrapping_add(1),
            ) {
                Ok((_, at)) => Ok((conn, at)),
                Err(halt) => Err(halt),
            },
        },
    }
}

/// Nothing is tried again where the first attempt is not broken off.
proof fn lemma_committed_at_once(
    ctx: ServerCtx,
    tape: Seq<Event>,
    at: int,
    group: Seq<char>,
    produced: ProducedView,
    offset: i64,
    version: i16,
    base: i32,
    last: ErrorView,
)
    requires
        committed_at_once(
            ctx,
            tape,
            at,
            group,
            produced,
            offset,
            version,
            base,
        ) matches Err(halt) ==> halt is Ask,
    ensures
        group_flows::spec_commit_settled(
            ctx,
            tape,
            at,
            group,
            produced,
            offset,
            version,
            base,
            0,
            last,
        ) == committed_at_once(ctx, tape, at, group, produced, offset, version, base),
{
}

#[verifier::rlimit(30)]
proof fn lemma_first_commit(
    setting: Setting,
    ctx: ServerCtx,
    tape: Seq<Event>,
    worlds: Seq<World>,
    at: int,
    group: Seq<char>,
    produced: ProducedView,
    offset: i64,
    version: i16,
    base: i32,
)
    requires
        trial::spares(setting.faults, Deed::Cluster),
        trial::spares(setting.faults, Deed::Find),
        0 <= at <= tape.len(),
        conformance::is_set(setting, ctx, worlds[at].state),
        conformance_log::holds_probe(setting, worlds[at], produced),
        setting.schema.offset_commit.min <= version <= setting.schema.offset_commit.max,
        forall|i: int|
            at <= i < tape.len() ==> conformance::follows(
                setting,
                tape,
                worlds,
                i,
                committed_at_once(
                    ctx,
                    #[trigger] tape.take(i),
                    at,
                    group,
                    produced,
                    offset,
                    version,
                    base,
                ),
            ),
    ensures
        match committed_at_once(ctx, tape, at, group, produced, offset, version, base) {
            Ok((conn, to)) => {
                &&& at <= to <= tape.len()
                &&& conformance::is_open(worlds[to], conn)
                &&& conformance::is_up(worlds[to].state)
                &&& worlds[to].state == (ClusterView {
                    committed: worlds[at].state.committed.insert(
                        (group, produced.topic, 0i32),
                        CommitView { offset, metadata: None },
                    ),
                    ..worlds[at].state
                })
                &&& forall|i: int|
                    to <= i <= tape.len() ==> committed_at_once(
                        ctx,
                        #[trigger] tape.take(i),
                        at,
                        group,
                        produced,
                        offset,
                        version,
                        base,
                    )
                        == Ok::<(usize, int), HaltView>((conn, to))
            },
            Err(HaltView::Ask(_)) => true,
            _ => false,
        },
{
    conformance_groups::lemma_coordinator_conn(setting, ctx, tape, worlds, at, group);
    match group_flows::spec_coordinator_conn(ctx, tape, at, group) {
        Ok((conn, found)) => {
            lemma_await_topic(setting, ctx, tape, worlds, found, conn, produced.topic, base);
            match group_flows::spec_await_topic_known(
                ctx,
                tape,
                found,
                conn,
                produced.topic,
                base,
            ) {
                Ok((_, known)) => {
                    lemma_commit_offset(
                        setting,
                        tape,
                        worlds,
                        known,
                        conn,
                        version,
                        group,
                        offset,
                        base.wrapping_add(1),
                        produced,
                    );
                },
                Err(_) => {},
            }
        },
        Err(_) => {},
    }
}

/// Committing an offset, to the coordinator.
pub proof fn lemma_commit_settled(
    setting: Setting,
    ctx: ServerCtx,
    tape: Seq<Event>,
    worlds: Seq<World>,
    at: int,
    group: Seq<char>,
    produced: ProducedView,
    offset: i64,
    version: i16,
    base: i32,
    last: ErrorView,
)
    requires
        trial::spares(setting.faults, Deed::Cluster),
        trial::spares(setting.faults, Deed::Find),
        0 <= at <= tape.len(),
        conformance::is_set(setting, ctx, worlds[at].state),
        conformance_log::holds_probe(setting, worlds[at], produced),
        setting.schema.offset_commit.min <= version <= setting.schema.offset_commit.max,
        forall|i: int|
            at <= i < tape.len() ==> conformance::follows(
                setting,
                tape,
                worlds,
                i,
                group_flows::spec_commit_settled(
                    ctx,
                    #[trigger] tape.take(i),
                    at,
                    group,
                    produced,
                    offset,
                    version,
                    base,
                    0,
                    last,
                ),
            ),
    ensures
        match group_flows::spec_commit_settled(
            ctx,
            tape,
            at,
            group,
            produced,
            offset,
            version,
            base,
            0,
            last,
        ) {
            Ok((conn, to)) => {
                &&& at <= to <= tape.len()
                &&& conformance::is_open(worlds[to], conn)
                &&& conformance::is_up(worlds[to].state)
                &&& worlds[to].state == (ClusterView {
                    committed: worlds[at].state.committed.insert(
                        (group, produced.topic, 0i32),
                        CommitView { offset, metadata: None },
                    ),
                    ..worlds[at].state
                })
                &&& forall|i: int|
                    to <= i <= tape.len() ==> group_flows::spec_commit_settled(
                        ctx,
                        #[trigger] tape.take(i),
                        at,
                        group,
                        produced,
                        offset,
                        version,
                        base,
                        0,
                        last,
                    )
                        == Ok::<(usize, int), HaltView>((conn, to))
            },
            Err(HaltView::Ask(_)) => true,
            _ => false,
        },
{
    assert forall|i: int| at <= i < tape.len() implies conformance::follows(
        setting,
        tape,
        worlds,
        i,
        committed_at_once(ctx, #[trigger] tape.take(i), at, group, produced, offset, version, base),
    ) by {
        if committed_at_once(
            ctx,
            tape.take(i),
            at,
            group,
            produced,
            offset,
            version,
            base,
        ) matches Err(halt) && halt is Ask {
            lemma_committed_at_once(
                ctx,
                tape.take(i),
                at,
                group,
                produced,
                offset,
                version,
                base,
                last,
            );
        }
    }
    lemma_first_commit(setting, ctx, tape, worlds, at, group, produced, offset, version, base);
    lemma_committed_at_once(ctx, tape, at, group, produced, offset, version, base, last);
    match committed_at_once(ctx, tape, at, group, produced, offset, version, base) {
        Ok((conn, to)) => {
            assert forall|i: int| to <= i <= tape.len() implies group_flows::spec_commit_settled(
                ctx,
                #[trigger] tape.take(i),
                at,
                group,
                produced,
                offset,
                version,
                base,
                0,
                last,
            ) == Ok::<(usize, int), HaltView>((conn, to)) by {
                assert(
                    committed_at_once(
                        ctx,
                        tape.take(i),
                        at,
                        group,
                        produced,
                        offset,
                        version,
                        base,
                    ) == Ok::<(usize, int), HaltView>((conn, to))
                );
                lemma_committed_at_once(
                    ctx,
                    tape.take(i),
                    at,
                    group,
                    produced,
                    offset,
                    version,
                    base,
                    last,
                );
            }
        },
        Err(_) => {},
    }
}

/// Reading the commit back at every version, from one of them on.
proof fn lemma_read_back_sweep(
    setting: Setting,
    tape: Seq<Event>,
    worlds: Seq<World>,
    at: int,
    conn: usize,
    group: Seq<char>,
    produced: ProducedView,
    versions: Seq<i16>,
    n: int,
)
    requires
        trial::is_trial(ServerCheck::OffsetsCommitFetchRoundtrip, setting.faults),
        0 <= at <= tape.len(),
        0 <= n <= versions.len(),
        conformance::is_modern(setting.schema),
        conformance::is_up(worlds[at].state),
        conformance::is_open(worlds[at], conn),
        is_known(worlds[at].state, produced),
        worlds[at].state.committed.contains_key((group, produced.topic, 0i32)),
        worlds[at].state.committed[(group, produced.topic, 0i32)].offset
            == server_groups::COMMITTED,
        forall|j: int|
            0 <= j < versions.len() ==> setting.schema.offset_fetch.min <= #[trigger] versions[j] <= setting.schema.offset_fetch.max,
        produced.topic_id@ != wire::zero_id(),
        forall|i: int|
            at <= i < tape.len() ==> conformance::follows(
                setting,
                tape,
                worlds,
                i,
                server_groups::spec_read_back_sweep(
                    #[trigger] tape.take(i),
                    at,
                    conn,
                    group,
                    produced,
                    versions,
                    n,
                ),
            ),
    ensures
        n < versions.len() || setting.faults.len() == 0 ==> trial::judged(
            setting.faults,
            server_groups::spec_read_back_sweep(tape, at, conn, group, produced, versions, n),
        ),
    decreases versions.len() - n,
{
    if n < versions.len() {
        let version = versions[n];
        let correlation = ctx::spec_correlation(62, n);
        lemma_fetch_committed(
            setting,
            tape,
            worlds,
            at,
            conn,
            version,
            group,
            correlation,
            produced,
        );
        match group_flows::spec_fetch_committed(
            tape,
            at,
            conn,
            version,
            group,
            produced.topic,
            produced.topic_id,
            correlation,
        ) {
            Ok((_, told)) => if setting.faults.len() == 0 {
                lemma_read_back_sweep(
                    setting,
                    tape,
                    worlds,
                    told,
                    conn,
                    group,
                    produced,
                    versions,
                    n + 1,
                );
            },
            Err(_) => {},
        }
    }
}

#[verifier::rlimit(30)]
pub proof fn lemma_offsets_commit_fetch_roundtrip(
    setting: Setting,
    ctx: ServerCtx,
    tape: Seq<Event>,
    worlds: Seq<World>,
)
    requires
        trial::is_trial(ServerCheck::OffsetsCommitFetchRoundtrip, setting.faults),
        conformance::is_set(setting, ctx, worlds[0].state),
        forall|i: int|
            0 <= i < tape.len() ==> conformance::follows(
                setting,
                tape,
                worlds,
                i,
                server_groups::spec_offsets_commit_fetch_roundtrip(ctx, #[trigger] tape.take(i)),
            ),
    ensures
        trial::judged(
            setting.faults,
            server_groups::spec_offsets_commit_fetch_roundtrip(ctx, tape),
        ),
{
    assert(trial::spares(setting.faults, Deed::Find));
    assert(trial::spares(setting.faults, Deed::Write));
    assert(trial::spares(setting.faults, Deed::Topic));
    assert(trial::spares(setting.faults, Deed::Cluster));
    conformance::lemma_group_ranges(setting.schema);
    let (oldest, newest) = (setting.schema.offset_fetch.min, setting.schema.offset_fetch.max);
    let versions = ctx::version_run(oldest, newest);
    assert(ctx.spec_versions(0, "OffsetFetch"@, OFFSET_FETCH, oldest, newest) == Ok::<Seq<i16>, HaltView>(
        versions,
    ));
    let version = setting.schema.offset_commit.max;
    let last = ErrorView::Infra("no commit attempts were made"@);
    conformance_log::lemma_produce_flow(
        setting,
        ctx,
        tape,
        worlds,
        0,
        "offsets"@,
        Addressing::Name,
    );
    match flows::spec_produce_flow(ctx, tape, 0, "offsets"@, Addressing::Name) {
        Ok((produced, at)) => {
            let group = ctx.spec_check_group(produced.topic);
            let offset = server_groups::COMMITTED;
            lemma_commit_settled(
                setting,
                ctx,
                tape,
                worlds,
                at,
                group,
                produced,
                offset,
                version,
                55,
                last,
            );
            match group_flows::spec_commit_settled(
                ctx,
                tape,
                at,
                group,
                produced,
                offset,
                version,
                55,
                0,
                last,
            ) {
                Ok((conn, kept)) => {
                    lemma_read_back_sweep(
                        setting,
                        tape,
                        worlds,
                        kept,
                        conn,
                        group,
                        produced,
                        versions,
                        0,
                    );
                },
                Err(_) => {},
            }
        },
        Err(_) => {},
    }
}

#[verifier::rlimit(30)]
pub proof fn lemma_offsets_unset_is_sentinel(
    setting: Setting,
    ctx: ServerCtx,
    tape: Seq<Event>,
    worlds: Seq<World>,
)
    requires
        trial::is_trial(ServerCheck::OffsetsUnsetIsSentinel, setting.faults),
        conformance::is_set(setting, ctx, worlds[0].state),
        forall|i: int|
            0 <= i < tape.len() ==> conformance::follows(
                setting,
                tape,
                worlds,
                i,
                server_groups::spec_offsets_unset_is_sentinel(ctx, #[trigger] tape.take(i)),
            ),
    ensures
        trial::judged(setting.faults, server_groups::spec_offsets_unset_is_sentinel(ctx, tape)),
{
    assert(trial::spares(setting.faults, Deed::Find));
    assert(trial::spares(setting.faults, Deed::Write));
    assert(trial::spares(setting.faults, Deed::Topic));
    assert(trial::spares(setting.faults, Deed::Cluster));
    conformance::lemma_group_ranges(setting.schema);
    let version = setting.schema.offset_fetch.max;
    conformance_log::lemma_produce_flow(setting, ctx, tape, worlds, 0, "unset"@, Addressing::Name);
    match flows::spec_produce_flow(ctx, tape, 0, "unset"@, Addressing::Name) {
        Ok((produced, at)) => {
            let group = ctx.spec_check_group(produced.topic) + "-never-committed"@;
            conformance_groups::lemma_coordinator_conn(setting, ctx, tape, worlds, at, group);
            match group_flows::spec_coordinator_conn(ctx, tape, at, group) {
                Ok((conn, found)) => {
                    lemma_await_topic(setting, ctx, tape, worlds, found, conn, produced.topic, 66);
                    match group_flows::spec_await_topic_known(
                        ctx,
                        tape,
                        found,
                        conn,
                        produced.topic,
                        66,
                    ) {
                        Ok((_, known)) => {
                            lemma_fetch_committed(
                                setting,
                                tape,
                                worlds,
                                known,
                                conn,
                                version,
                                group,
                                71,
                                produced,
                            );
                        },
                        Err(_) => {},
                    }
                },
                Err(_) => {},
            }
        },
        Err(_) => {},
    }
}

#[verifier::rlimit(60)]
pub proof fn lemma_offsets_metadata_round_trips(
    setting: Setting,
    ctx: ServerCtx,
    tape: Seq<Event>,
    worlds: Seq<World>,
)
    requires
        trial::is_trial(ServerCheck::OffsetsMetadataRoundTrips, setting.faults),
        conformance::is_set(setting, ctx, worlds[0].state),
        forall|i: int|
            0 <= i < tape.len() ==> conformance::follows(
                setting,
                tape,
                worlds,
                i,
                server_groups::spec_offsets_metadata_round_trips(ctx, #[trigger] tape.take(i)),
            ),
    ensures
        trial::judged(setting.faults, server_groups::spec_offsets_metadata_round_trips(ctx, tape)),
{
    assert(trial::spares(setting.faults, Deed::Find));
    assert(trial::spares(setting.faults, Deed::Write));
    assert(trial::spares(setting.faults, Deed::Topic));
    assert(trial::spares(setting.faults, Deed::Cluster));
    conformance::lemma_group_ranges(setting.schema);
    let version = setting.schema.offset_commit.max;
    let later = setting.schema.offset_fetch.max;
    let label = Label::Final("OffsetCommit"@);
    let said = Some("odradek:\u{e9}\"state\"/shard-7"@);
    conformance_log::lemma_produce_flow(
        setting,
        ctx,
        tape,
        worlds,
        0,
        "commitmeta"@,
        Addressing::Name,
    );
    match flows::spec_produce_flow(ctx, tape, 0, "commitmeta"@, Addressing::Name) {
        Ok((produced, at)) => {
            let group = ctx.spec_check_group("commitmeta"@);
            conformance_groups::lemma_coordinator_conn(setting, ctx, tape, worlds, at, group);
            match group_flows::spec_coordinator_conn(ctx, tape, at, group) {
                Ok((conn, found)) => {
                    lemma_await_topic(setting, ctx, tape, worlds, found, conn, produced.topic, 815);
                    match group_flows::spec_await_topic_known(
                        ctx,
                        tape,
                        found,
                        conn,
                        produced.topic,
                        815,
                    ) {
                        Ok((_, known)) => {
                            lemma_commit(
                                setting,
                                tape,
                                worlds,
                                known,
                                label,
                                conn,
                                version,
                                820,
                                group,
                                11,
                                said,
                                produced,
                            );
                            match asks::spec_ask_offset_commit(
                                tape,
                                known,
                                label,
                                ActionOf::Call {
                                    conn,
                                    version,
                                    correlation: 820,
                                    request: RequestOf::OffsetCommit {
                                        group,
                                        topic: group_flows::spec_offsets_topic(
                                            version,
                                            produced.topic,
                                            produced.topic_id,
                                        ),
                                        offset: 11,
                                        metadata: said,
                                    },
                                },
                            ) {
                                Ok((topics, kept)) => {
                                    lemma_offset_fetch(
                                        setting,
                                        tape,
                                        worlds,
                                        kept,
                                        conn,
                                        later,
                                        group,
                                        830,
                                        produced,
                                    );
                                },
                                Err(_) => {},
                            }
                        },
                        Err(_) => {},
                    }
                },
                Err(_) => {},
            }
        },
        Err(_) => {},
    }
}

} // verus!

//! What the checks make of the groups that the reference subject coordinates,
//! and of the offsets it keeps for them.

use vstd::prelude::*;
use vstd::string::*;

use crate::checks::calibration;
use crate::checks::calibration_state;
use crate::checks::find;
use crate::checks::server_groups;
use crate::subject::groups;
use crate::subject::laws;
use crate::subject::offsets;
use crate::subject::replies::{ConsumerGroupReplyView, DescribedGroupView, JoinGroupReplyView};
use crate::subject::requests::{
    ConsumerGroupAskView, GivenAssignmentView, HeartbeatAskView, JoinGroupAskView,
    LeaveGroupAskView, SyncGroupAskView,
};
use crate::subject::state::{ClusterView, GroupView};
use crate::subject::Fault;
use crate::text;
use crate::wire;
use crate::wire::{
    ConsumerGroupAnswer, DescribedRow, ErrorCode, JoinGroupAnswer, SyncGroupAnswer,
    JOIN_GROUP_MEMBER_ID_REQUIRED,
};
use crate::VerdictView;

verus! {

/// The committed offset that is read back, as
/// `offsets/commit-fetch-roundtrip` sees it.
pub proof fn law_read_back_is_calibrated(
    state: ClusterView,
    group: Seq<char>,
    name: Seq<char>,
    partition: i32,
    version: i16,
    loses: bool,
)
    requires
        state.committed.contains_key((group, name, partition)),
        state.committed[(group, name, partition)].offset == server_groups::COMMITTED,
    ensures
        ({
            let got = offsets::spec_lookup(
                state,
                group,
                name,
                partition,
                calibration_state::only_if(Fault::OffsetFetchLosesCommit, loses),
            ).offset;
            &&& !loses ==> server_groups::spec_judge_read_back(version, got) == VerdictView::Pass
            &&& loses ==> server_groups::spec_judge_read_back(version, got) is Fail
        }),
{
    let fault = Fault::OffsetFetchLosesCommit;
    calibration_state::lemma_only_if(fault, loses, fault);
}

/// The offset of a group that never committed, as
/// `offsets/unset-is-sentinel` sees it.
pub proof fn law_unset_offset_is_calibrated(
    state: ClusterView,
    group: Seq<char>,
    name: Seq<char>,
    partition: i32,
    zero: bool,
)
    requires
        !state.committed.contains_key((group, name, partition)),
    ensures
        ({
            let got = offsets::spec_lookup(
                state,
                group,
                name,
                partition,
                calibration_state::only_if(Fault::OffsetFetchUnsetIsZero, zero),
            ).offset;
            &&& !zero ==> server_groups::spec_judge_unset(got) == VerdictView::Pass
            &&& zero ==> server_groups::spec_judge_unset(got) is Fail
        }),
{
    let fault = Fault::OffsetFetchUnsetIsZero;
    calibration_state::lemma_only_if(fault, zero, fault);
}

/// Whether an answer is what a reader makes of a heartbeat's.
pub open spec fn shows_heartbeat(answer: ConsumerGroupAnswer, reply: ConsumerGroupReplyView)
    -> bool {
    &&& answer.error.code == reply.error_code
    &&& wire::opt_view(answer.member_id) == reply.member_id
    &&& answer.member_epoch == reply.member_epoch
    &&& answer.heartbeat_interval_ms == reply.heartbeat_interval_ms
}

/// A member that introduces itself, as `consumer-group/epoch-advances` sees
/// what it is told.
pub proof fn law_admission_is_calibrated(
    state: ClusterView,
    ask: ConsumerGroupAskView,
    answer: ConsumerGroupAnswer,
    stuck: bool,
)
    requires
        ask.member_id.len() > 0,
        ask.member_epoch == 0,
        !state.members.contains_key((ask.group_id, ask.member_id)),
        shows_heartbeat(
            answer,
            groups::spec_consumer_group(
                state,
                ask,
                calibration_state::only_if(Fault::ConsumerGroupEpochStuck, stuck),
            ).1,
        ),
    ensures
        !stuck ==> server_groups::spec_judge_admission(answer) == VerdictView::Pass,
        stuck ==> server_groups::spec_judge_admission(answer) is Fail,
{
    let fault = Fault::ConsumerGroupEpochStuck;
    calibration_state::lemma_only_if(fault, stuck, fault);
}

/// A heartbeat with an epoch far ahead of the one that was issued, as
/// `consumer-group/fenced-epoch` sees what it is told.
pub proof fn law_bogus_epoch_is_calibrated(
    state: ClusterView,
    ask: ConsumerGroupAskView,
    answer: ConsumerGroupAnswer,
    ignores: bool,
)
    requires
        state.members.contains_key((ask.group_id, ask.member_id)),
        state.members[(ask.group_id, ask.member_id)].epoch >= 0,
        ask.member_epoch == state.members[(ask.group_id, ask.member_id)].epoch.wrapping_add(99),
        shows_heartbeat(
            answer,
            groups::spec_consumer_group(
                state,
                ask,
                calibration_state::only_if(Fault::ConsumerGroupIgnoresEpoch, ignores),
            ).1,
        ),
    ensures
        ({
            let verdict = server_groups::spec_judge_bogus_epoch(
                answer.error,
                ask.member_epoch,
                state.members[(ask.group_id, ask.member_id)].epoch,
            );
            &&& !ignores ==> verdict == VerdictView::Pass
            &&& ignores ==> verdict is Fail
        }),
{
    let fault = Fault::ConsumerGroupIgnoresEpoch;
    calibration_state::lemma_only_if(fault, ignores, fault);
}

/// Whether an answer is what a reader makes of a join's.
pub open spec fn shows_join(answer: JoinGroupAnswer, reply: JoinGroupReplyView) -> bool {
    &&& answer.error.code == reply.error_code
    &&& answer.member_id@ == reply.member_id
}

/// A join without a member id, and the one with the id that was supplied, as
/// `groups/member-id-required` sees them.
pub proof fn law_unnamed_join_is_calibrated(
    group: GroupView,
    ask: JoinGroupAskView,
    api_version: i16,
    first: JoinGroupAnswer,
    second: ErrorCode,
    accepts: bool,
)
    requires
        ask.member_id.len() == 0,
        api_version >= JOIN_GROUP_MEMBER_ID_REQUIRED,
        ({
            let faults = calibration_state::only_if(Fault::JoinGroupAcceptsEmptyMemberId, accepts);
            let (after, reply) = groups::spec_join(group, ask, api_version, faults);
            let again = JoinGroupAskView { member_id: reply.member_id, ..ask };
            &&& shows_join(first, reply)
            &&& second.code == groups::spec_join(after, again, api_version, faults).1.error_code
        }),
    ensures
        !accepts ==> server_groups::spec_judge_unnamed(first, api_version) == VerdictView::Pass
            && server_groups::spec_judge_rejoin(second) == VerdictView::Pass,
        accepts ==> server_groups::spec_judge_unnamed(first, api_version) is Fail,
{
    let fault = Fault::JoinGroupAcceptsEmptyMemberId;
    calibration_state::lemma_only_if(fault, accepts, fault);
    reveal_strlit("odradek-member-");
}

/// The assignment that a group's only member supplies for itself, as
/// `groups/assignment-round-trips` sees what it receives.
pub proof fn law_supplied_assignment_is_calibrated(
    group: GroupView,
    ask: SyncGroupAskView,
    sent: Seq<u8>,
    answer: SyncGroupAnswer,
    rewrites: bool,
)
    requires
        group.members.len() > 0,
        group.members[0] == ask.member_id,
        group.generation_id == ask.generation_id,
        ask.assignments == seq![
            GivenAssignmentView { member_id: ask.member_id, assignment: sent },
        ],
        ({
            let reply = groups::spec_sync(
                group,
                ask,
                calibration_state::only_if(Fault::SyncGroupRewritesAssignment, rewrites),
            ).1;
            &&& answer.error.code == reply.error_code
            &&& answer.assignment@ == reply.assignment
        }),
    ensures
        !rewrites ==> server_groups::spec_judge_synced(answer, sent) == VerdictView::Pass,
        rewrites ==> server_groups::spec_judge_synced(answer, sent) is Fail,
{
    let fault = Fault::SyncGroupRewritesAssignment;
    let faults = calibration_state::only_if(fault, rewrites);
    calibration_state::lemma_only_if(fault, rewrites, fault);
    calibration_state::lemma_only_if(fault, rewrites, Fault::GroupIgnoresGeneration);
    assert(group.members.contains(ask.member_id));
    let given = ask.assignments;
    assert(given.drop_last() =~= Seq::empty());
    reveal_with_fuel(groups::assign_all, 2);
    assert(given.last() == given[0]);
    let kept = groups::kept_assignment(sent, faults);
    assert(answer.assignment@ == kept);
    if rewrites && sent.len() > 0 {
        let last = sent.last();
        assert(last ^ 1 != last) by (bit_vector);
        assert(kept[sent.len() - 1] != sent[sent.len() - 1]);
    }
}

/// A heartbeat of the generation before, as `groups/stale-generation-fenced`
/// sees what it is told.
pub proof fn law_stale_generation_is_calibrated(
    state: ClusterView,
    ask: HeartbeatAskView,
    code: ErrorCode,
    ignores: bool,
)
    requires
        state.groups.contains_key(ask.group_id),
        state.groups[ask.group_id].members.contains(ask.member_id),
        ask.generation_id == state.groups[ask.group_id].generation_id.wrapping_sub(1),
        code.code == groups::spec_heartbeat(
            state,
            ask,
            calibration_state::only_if(Fault::GroupIgnoresGeneration, ignores),
        ).1,
    ensures
        ({
            let verdict = server_groups::spec_judge_stale_generation(
                code,
                ask.generation_id,
                state.groups[ask.group_id].generation_id,
            );
            &&& !ignores ==> verdict == VerdictView::Pass
            &&& ignores ==> verdict is Fail
        }),
{
    let fault = Fault::GroupIgnoresGeneration;
    calibration_state::lemma_only_if(fault, ignores, fault);
}

/// A heartbeat of a member that left, as `groups/leave-unregisters-the-member`
/// sees what it is told.
pub proof fn law_departure_is_calibrated(
    state: ClusterView,
    leave: LeaveGroupAskView,
    ask: HeartbeatAskView,
    code: ErrorCode,
    keeps: bool,
)
    requires
        state.groups.contains_key(ask.group_id),
        state.groups[ask.group_id].members.contains(ask.member_id),
        state.groups[ask.group_id].generation_id == ask.generation_id,
        leave.group_id == ask.group_id,
        groups::leaving(leave).contains(ask.member_id),
        ({
            let faults = calibration_state::only_if(Fault::LeaveGroupKeepsTheMember, keeps);
            let after = groups::spec_leave_group(state, leave, faults);
            code.code == groups::spec_heartbeat(after, ask, faults).1
        }),
    ensures
        !keeps ==> server_groups::spec_judge_departed(code, ask.member_id) == VerdictView::Pass,
        keeps ==> server_groups::spec_judge_departed(code, ask.member_id) is Fail,
{
    let fault = Fault::LeaveGroupKeepsTheMember;
    let faults = calibration_state::only_if(fault, keeps);
    calibration_state::lemma_only_if(fault, keeps, fault);
    calibration_state::lemma_only_if(fault, keeps, Fault::GroupIgnoresGeneration);
    if !keeps {
        laws::law_departed_member_is_unknown(state, leave, ask.member_id, ask.generation_id);
        assert(faults =~= Seq::empty());
    }
}

/// Whether an entry is what a reader makes of a described group.
pub open spec fn shows_described(row: DescribedRow, reply: DescribedGroupView) -> bool {
    &&& row.group_id@ == reply.group_id
    &&& row.error.code == reply.error_code
    &&& text::views(row.members@) == reply.members.map_values(
        |m: crate::subject::replies::DescribedMemberView| m.member_id,
    )
}

/// A group with a member, as `describe-groups/reports-members` sees what is
/// said of it.
pub proof fn law_described_members_are_calibrated(
    state: ClusterView,
    group: Seq<char>,
    member_id: Seq<char>,
    rows: Seq<DescribedRow>,
    hides: bool,
)
    requires
        state.groups.contains_key(group),
        state.groups[group].members.contains(member_id),
        rows.len() == 1,
        shows_described(
            rows[0],
            groups::spec_described(
                state,
                group,
                calibration_state::only_if(Fault::DescribeGroupsHidesMembers, hides),
            ),
        ),
    ensures
        !hides ==> server_groups::spec_judge_described(rows, group, member_id)
            == VerdictView::Pass,
        hides ==> server_groups::spec_judge_described(rows, group, member_id) is Fail,
{
    let fault = Fault::DescribeGroupsHidesMembers;
    let faults = calibration_state::only_if(fault, hides);
    calibration_state::lemma_only_if(fault, hides, fault);
    calibration::lemma_first_where(rows, find::described_as(group));
    assert(find::described_as(group)(rows[0]));
    let listed = rows[0].members@;
    let said = groups::spec_described(state, group, faults).members;
    assert(text::views(listed).len() == said.len());
    if hides {
        assert(listed.len() == 0);
    } else {
        let members = state.groups[group].members;
        let k = choose|k: int| 0 <= k < members.len() && members[k] == member_id;
        assert(said[k].member_id == member_id);
        assert(text::views(listed)[k] == member_id);
        assert(listed[k]@ == member_id);
    }
}

} // verus!

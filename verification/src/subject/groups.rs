//! The groups that the reference subject coordinates, under both protocols.

use vstd::prelude::*;
use vstd::string::*;

use crate::subject::replies::{
    AssignedTopic, AssignedTopicView, ConsumerGroupReply, ConsumerGroupReplyView,
    DescribeGroupsReply, DescribeGroupsReplyView, DescribedGroup, DescribedGroupView,
    DescribedMember, DescribedMemberView, JoinGroupReply, JoinGroupReplyView, JoinMember,
    JoinMemberView, SyncGroupReply, SyncGroupReplyView,
};
use crate::subject::requests::{
    ConsumerGroupAsk, ConsumerGroupAskView, DescribeGroupsAsk, DescribeGroupsAskView,
    GivenAssignment, GivenAssignmentView, HeartbeatAsk, HeartbeatAskView, JoinGroupAsk,
    JoinGroupAskView, LeaveGroupAsk, LeaveGroupAskView, ProtocolView, SyncGroupAsk,
    SyncGroupAskView,
};
use crate::subject::state;
use crate::subject::state::{
    copy_bytes, ClusterState, ClusterView, GroupState, GroupView, Member, MemberView,
};
use crate::subject::{injected, Fault};
use crate::table::Table;
use crate::text;
use crate::text::{line, same_bytes, same_text};
use crate::wire;
use crate::wire::{
    TopicId, FENCED_MEMBER_EPOCH, ILLEGAL_GENERATION, JOIN_GROUP_MEMBER_ID_REQUIRED,
    MEMBER_ID_REQUIRED, NONE, UNKNOWN_MEMBER_ID,
};

verus! {

/// The generation of a join that was refused.
pub const NO_GENERATION: i32 = -1;
/// The first JoinGroup version whose protocol name may be missing.
pub const JOIN_GROUP_NULLABLE_PROTOCOL: i16 = 7;
/// The interval that members are told to heartbeat at.
pub const HEARTBEAT_INTERVAL_MS: i32 = 5_000;
/// A heartbeat that carries this epoch is the member leaving.
pub const LEAVE_EPOCH: i32 = -1;

/// The group of a name, one that nobody has joined where there is none.
pub open spec fn group_of(state: ClusterView, name: Seq<char>) -> GroupView {
    if state.groups.contains_key(name) {
        state.groups[name]
    } else {
        state::empty_group()
    }
}

fn is_among(names: &Vec<String>, name: &str) -> (r: bool)
    ensures
        r == text::views(names@).contains(name@),
{
    let ghost all = text::views(names@);
    let mut i: usize = 0;
    while i < names.len()
        invariant
            i <= names@.len(),
            all == text::views(names@),
            forall|j: int| 0 <= j < i ==> #[trigger] all[j] != name@,
        decreases names@.len() - i,
    {
        assert(all[i as int] == names@[i as int]@);
        if same_text(names[i].as_str(), name) {
            return true;
        }
        i = i + 1;
    }
    false
}

/// The id minted for a join that had none.
pub open spec fn minted_id(group: GroupView) -> Seq<char> {
    "odradek-member-"@ + text::dec(group.minted.len() as int + 1)
}

fn mint(group: &GroupState) -> (r: String)
    ensures
        r@ == minted_id(group@),
{
    line("odradek-member-").count(group.minted.len() as u128 + 1).done()
}

/// The first protocol's name, empty where there is none.
pub open spec fn first_name(protocols: Seq<ProtocolView>) -> Seq<char> {
    if protocols.len() == 0 {
        ""@
    } else {
        protocols[0].name
    }
}

/// The first protocol's metadata, empty where there is none.
pub open spec fn first_metadata(protocols: Seq<ProtocolView>) -> Seq<u8> {
    if protocols.len() == 0 {
        Seq::empty()
    } else {
        protocols[0].metadata
    }
}

/// Whether a join is refused and given an id to come back with.
pub open spec fn needs_id(ask: JoinGroupAskView, api_version: i16, faults: Seq<Fault>) -> bool {
    ask.member_id.len() == 0 && api_version >= JOIN_GROUP_MEMBER_ID_REQUIRED && !faults.contains(
        Fault::JoinGroupAcceptsEmptyMemberId,
    )
}

/// The id under which a join is admitted.
pub open spec fn joining_id(group: GroupView, ask: JoinGroupAskView) -> Seq<char> {
    if ask.member_id.len() == 0 {
        minted_id(group)
    } else {
        ask.member_id
    }
}

/// A group after a join was admitted: a new member moves the generation, and
/// what the leader had decided goes with the old one.
pub open spec fn after_join(group: GroupView, ask: JoinGroupAskView) -> GroupView {
    let id = joining_id(group, ask);
    let minted = if ask.member_id.len() == 0 {
        group.minted.push(id)
    } else {
        group.minted
    };
    let known = group.members.contains(id);
    GroupView {
        generation_id: if known {
            group.generation_id
        } else {
            group.generation_id.wrapping_add(1)
        },
        members: if known {
            group.members
        } else {
            group.members.push(id)
        },
        protocol_type: ask.protocol_type,
        protocol_name: first_name(ask.protocols),
        assignments: if known {
            group.assignments
        } else {
            Map::empty()
        },
        minted,
    }
}

/// What a member that was admitted is told. Only the leader learns who else
/// is in the group: it has to compute an assignment for them.
pub open spec fn admission(group: GroupView, id: Seq<char>, metadata: Seq<u8>)
    -> JoinGroupReplyView {
    let leader = group.members[0];
    JoinGroupReplyView {
        error_code: NONE,
        generation_id: group.generation_id,
        protocol_type: Some(group.protocol_type),
        protocol_name: Some(group.protocol_name),
        leader,
        member_id: id,
        members: if id == leader {
            group.members.map_values(|m: Seq<char>| JoinMemberView { member_id: m, metadata })
        } else {
            Seq::empty()
        },
    }
}

/// What JoinGroup does to a group and answers.
pub open spec fn spec_join(
    group: GroupView,
    ask: JoinGroupAskView,
    api_version: i16,
    faults: Seq<Fault>,
) -> (GroupView, JoinGroupReplyView) {
    if needs_id(ask, api_version, faults) {
        let id = minted_id(group);
        (
            GroupView { minted: group.minted.push(id), ..group },
            JoinGroupReplyView {
                error_code: MEMBER_ID_REQUIRED,
                generation_id: NO_GENERATION,
                protocol_type: Some(ask.protocol_type),
                protocol_name: if api_version < JOIN_GROUP_NULLABLE_PROTOCOL {
                    Some(""@)
                } else {
                    None
                },
                leader: ""@,
                member_id: id,
                members: Seq::empty(),
            },
        )
    } else {
        let after = after_join(group, ask);
        (after, admission(after, joining_id(group, ask), first_metadata(ask.protocols)))
    }
}

/// What JoinGroup does and answers.
pub open spec fn spec_join_group(
    state: ClusterView,
    ask: JoinGroupAskView,
    api_version: i16,
    faults: Seq<Fault>,
) -> (ClusterView, JoinGroupReplyView) {
    let (group, reply) = spec_join(group_of(state, ask.group_id), ask, api_version, faults);
    (ClusterView { groups: state.groups.insert(ask.group_id, group), ..state }, reply)
}

fn listed_members(members: &Vec<String>, metadata: &Vec<u8>) -> (r: Vec<JoinMember>)
    ensures
        r@.map_values(|row: JoinMember| row@) == text::views(members@).map_values(
            |m: Seq<char>| JoinMemberView { member_id: m, metadata: metadata@ },
        ),
{
    let mut rows: Vec<JoinMember> = Vec::new();
    let mut i: usize = 0;
    while i < members.len()
        invariant
            i <= members@.len(),
            rows@.len() == i,
            forall|j: int|
                0 <= j < i ==> (#[trigger] rows@[j])@ == (JoinMemberView {
                    member_id: members@[j]@,
                    metadata: metadata@,
                }),
        decreases members@.len() - i,
    {
        rows.push(JoinMember { member_id: members[i].clone(), metadata: copy_bytes(metadata) });
        i = i + 1;
    }
    assert(rows@.map_values(|row: JoinMember| row@) =~= text::views(members@).map_values(
        |m: Seq<char>| JoinMemberView { member_id: m, metadata: metadata@ },
    ));
    rows
}

fn join(group: &mut GroupState, ask: &JoinGroupAsk, api_version: i16, faults: &Vec<Fault>) -> (r:
    JoinGroupReply)
    ensures
        (final(group)@, r@) == spec_join(old(group)@, ask@, api_version, faults@),
{
    let ghost start = group@;
    let unnamed = ask.member_id.as_str().unicode_len() == 0;
    if unnamed && api_version >= JOIN_GROUP_MEMBER_ID_REQUIRED && !injected(
        faults,
        Fault::JoinGroupAcceptsEmptyMemberId,
    ) {
        let id = mint(group);
        group.minted.push(id.clone());
        assert(group@ =~= (GroupView { minted: start.minted.push(id@), ..start }));
        let r = JoinGroupReply {
            error_code: MEMBER_ID_REQUIRED,
            generation_id: NO_GENERATION,
            protocol_type: Some(ask.protocol_type.clone()),
            protocol_name: if api_version < JOIN_GROUP_NULLABLE_PROTOCOL {
                Some(String::from_str(""))
            } else {
                None
            },
            leader: String::from_str(""),
            member_id: id,
            members: Vec::new(),
        };
        assert(r@.members =~= Seq::empty());
        return r;
    }
    let id = if unnamed {
        let id = mint(group);
        group.minted.push(id.clone());
        id
    } else {
        ask.member_id.clone()
    };
    if !is_among(&group.members, id.as_str()) {
        group.members.push(id.clone());
        group.generation_id = group.generation_id.wrapping_add(1);
        group.assignments = Table::new();
    }
    let empty: Vec<u8> = Vec::new();
    let (name, metadata) = if ask.protocols.len() == 0 {
        (String::from_str(""), &empty)
    } else {
        (ask.protocols[0].name.clone(), &ask.protocols[0].metadata)
    };
    group.protocol_type = ask.protocol_type.clone();
    group.protocol_name = name;
    proof {
        assert(metadata@ =~= first_metadata(ask@.protocols));
        if unnamed {
            assert(group@.minted =~= start.minted.push(id@));
        }
        assert(group@ =~= after_join(start, ask@));
        let known = start.members;
        if known.contains(id@) {
            let k = choose|k: int| 0 <= k < known.len() && known[k] == id@;
            assert(known.len() > 0);
        }
        assert(group@.members.len() > 0);
    }
    let leader = group.members[0].clone();
    assert(group@.members[0] == leader@);
    let members = if same_text(id.as_str(), leader.as_str()) {
        listed_members(&group.members, metadata)
    } else {
        Vec::new()
    };
    let r = JoinGroupReply {
        error_code: NONE,
        generation_id: group.generation_id,
        protocol_type: Some(group.protocol_type.clone()),
        protocol_name: Some(group.protocol_name.clone()),
        leader,
        member_id: id,
        members,
    };
    assert(r@.members =~= admission(group@, id@, metadata@).members);
    r
}

/// Answers JoinGroup: mints a member id, or admits the member and names a
/// leader.
pub fn join_group(
    state: &mut ClusterState,
    ask: &JoinGroupAsk,
    api_version: i16,
    faults: &Vec<Fault>,
) -> (r: JoinGroupReply)
    ensures
        (final(state)@, r@) == spec_join_group(old(state)@, ask@, api_version, faults@),
{
    let group = state.groups.entry(ask.group_id.clone(), GroupState::new());
    join(group, ask, api_version, faults)
}

/// The fence that every request after the join passes: no code, where it may
/// proceed. A member that the group does not know is told so, whatever
/// generation it carries.
pub open spec fn spec_fence(
    group: GroupView,
    generation_id: i32,
    member_id: Seq<char>,
    faults: Seq<Fault>,
) -> Option<i16> {
    if !group.members.contains(member_id) {
        Some(UNKNOWN_MEMBER_ID)
    } else if generation_id != group.generation_id && !faults.contains(
        Fault::GroupIgnoresGeneration,
    ) {
        Some(ILLEGAL_GENERATION)
    } else {
        None
    }
}

/// The fence that every request after the join passes.
pub fn fence(group: &GroupState, generation_id: i32, member_id: &str, faults: &Vec<Fault>) -> (r:
    Option<i16>)
    ensures
        r == spec_fence(group@, generation_id, member_id@, faults@),
{
    if !is_among(&group.members, member_id) {
        return Some(UNKNOWN_MEMBER_ID);
    }
    if generation_id != group.generation_id && !injected(faults, Fault::GroupIgnoresGeneration) {
        return Some(ILLEGAL_GENERATION);
    }
    None
}

/// The assignment bytes that are kept: the leader's, unless the fault alters
/// them.
pub open spec fn kept_assignment(bytes: Seq<u8>, faults: Seq<Fault>) -> Seq<u8> {
    if !faults.contains(Fault::SyncGroupRewritesAssignment) {
        bytes
    } else if bytes.len() == 0 {
        seq![0x78u8]
    } else {
        bytes.update(bytes.len() - 1, bytes.last() ^ 1)
    }
}

fn keep_assignment(bytes: &Vec<u8>, faults: &Vec<Fault>) -> (r: Vec<u8>)
    ensures
        r@ == kept_assignment(bytes@, faults@),
{
    let mut kept = copy_bytes(bytes);
    if injected(faults, Fault::SyncGroupRewritesAssignment) {
        if kept.len() == 0 {
            kept.push(0x78);
        } else {
            let last: usize = kept.len() - 1;
            let flipped: u8 = kept[last] ^ 1;
            kept.set(last, flipped);
        }
    }
    assert(kept@ =~= kept_assignment(bytes@, faults@));
    kept
}

/// The assignments after the leader gave some.
pub open spec fn assign_all(
    assignments: Map<Seq<char>, Seq<u8>>,
    given: Seq<GivenAssignmentView>,
    faults: Seq<Fault>,
) -> Map<Seq<char>, Seq<u8>>
    decreases given.len(),
{
    if given.len() == 0 {
        assignments
    } else {
        assign_all(assignments, given.drop_last(), faults).insert(
            given.last().member_id,
            kept_assignment(given.last().assignment, faults),
        )
    }
}

/// What SyncGroup does to a group and answers.
pub open spec fn spec_sync(group: GroupView, ask: SyncGroupAskView, faults: Seq<Fault>) -> (
    GroupView,
    SyncGroupReplyView,
) {
    match spec_fence(group, ask.generation_id, ask.member_id, faults) {
        Some(code) => (
            group,
            SyncGroupReplyView {
                error_code: code,
                protocol_type: None,
                protocol_name: None,
                assignment: Seq::empty(),
            },
        ),
        None => {
            let assignments = if group.members[0] == ask.member_id {
                assign_all(group.assignments, ask.assignments, faults)
            } else {
                group.assignments
            };
            (
                GroupView { assignments, ..group },
                SyncGroupReplyView {
                    error_code: NONE,
                    protocol_type: Some(group.protocol_type),
                    protocol_name: Some(group.protocol_name),
                    assignment: if assignments.contains_key(ask.member_id) {
                        assignments[ask.member_id]
                    } else {
                        Seq::empty()
                    },
                },
            )
        },
    }
}

/// What SyncGroup does and answers.
pub open spec fn spec_sync_group(state: ClusterView, ask: SyncGroupAskView, faults: Seq<Fault>) -> (
    ClusterView,
    SyncGroupReplyView,
) {
    let (group, reply) = spec_sync(group_of(state, ask.group_id), ask, faults);
    (ClusterView { groups: state.groups.insert(ask.group_id, group), ..state }, reply)
}

fn take_assignments(group: &mut GroupState, given: &Vec<GivenAssignment>, faults: &Vec<Fault>)
    ensures
        final(group)@ == (GroupView {
            assignments: assign_all(
                old(group)@.assignments,
                given@.map_values(|row: GivenAssignment| row@),
                faults@,
            ),
            ..old(group)@
        }),
{
    let ghost start = group@;
    let ghost all = given@.map_values(|row: GivenAssignment| row@);
    let mut i: usize = 0;
    while i < given.len()
        invariant
            i <= given@.len(),
            start == old(group)@,
            all == given@.map_values(|row: GivenAssignment| row@),
            group@ == (GroupView {
                assignments: assign_all(start.assignments, all.take(i as int), faults@),
                ..start
            }),
        decreases given@.len() - i,
    {
        assert(all.take(i + 1).drop_last() =~= all.take(i as int));
        assert(all[i as int] == given@[i as int]@);
        let kept = keep_assignment(&given[i].assignment, faults);
        group.assignments.insert(given[i].member_id.clone(), kept);
        i = i + 1;
    }
    assert(all.take(i as int) =~= all);
}

fn sync(group: &mut GroupState, ask: &SyncGroupAsk, faults: &Vec<Fault>) -> (r: SyncGroupReply)
    ensures
        (final(group)@, r@) == spec_sync(old(group)@, ask@, faults@),
{
    let ghost start = group@;
    if let Some(code) = fence(group, ask.generation_id, ask.member_id.as_str(), faults) {
        return SyncGroupReply {
            error_code: code,
            protocol_type: None,
            protocol_name: None,
            assignment: Vec::new(),
        };
    }
    proof {
        let k = choose|k: int| 0 <= k < start.members.len() && start.members[k] == ask@.member_id;
        assert(start.members.len() > 0);
        assert(start.members[0] == group.members@[0]@);
    }
    if same_text(group.members[0].as_str(), ask.member_id.as_str()) {
        take_assignments(group, &ask.assignments, faults);
    }
    let assignment = match group.assignments.get(&ask.member_id) {
        Some(bytes) => copy_bytes(bytes),
        None => Vec::new(),
    };
    SyncGroupReply {
        error_code: NONE,
        protocol_type: Some(group.protocol_type.clone()),
        protocol_name: Some(group.protocol_name.clone()),
        assignment,
    }
}

/// Answers SyncGroup: takes the leader's assignments, hands each member its
/// own.
pub fn sync_group(state: &mut ClusterState, ask: &SyncGroupAsk, faults: &Vec<Fault>) -> (r:
    SyncGroupReply)
    ensures
        (final(state)@, r@) == spec_sync_group(old(state)@, ask@, faults@),
{
    let group = state.groups.entry(ask.group_id.clone(), GroupState::new());
    sync(group, ask, faults)
}

/// What Heartbeat does and answers: a group that was asked about exists from
/// then on.
pub open spec fn spec_heartbeat(state: ClusterView, ask: HeartbeatAskView, faults: Seq<Fault>) -> (
    ClusterView,
    i16,
) {
    let group = group_of(state, ask.group_id);
    (
        ClusterView { groups: state.groups.insert(ask.group_id, group), ..state },
        match spec_fence(group, ask.generation_id, ask.member_id, faults) {
            Some(code) => code,
            None => NONE,
        },
    )
}

/// Answers Heartbeat: alive, and still of this generation.
pub fn heartbeat(state: &mut ClusterState, ask: &HeartbeatAsk, faults: &Vec<Fault>) -> (r: i16)
    ensures
        (final(state)@, r) == spec_heartbeat(old(state)@, ask@, faults@),
{
    let group = state.groups.entry(ask.group_id.clone(), GroupState::new());
    match fence(group, ask.generation_id, ask.member_id.as_str(), faults) {
        Some(code) => code,
        None => NONE,
    }
}

/// The members that a LeaveGroup names, in whichever shape.
pub open spec fn leaving(ask: LeaveGroupAskView) -> Seq<Seq<char>> {
    if ask.member_id.len() == 0 {
        ask.members
    } else {
        ask.members.push(ask.member_id)
    }
}

/// Those who stay when some leave.
pub open spec fn staying(gone: Seq<Seq<char>>) -> spec_fn(Seq<char>) -> bool {
    |id: Seq<char>| !gone.contains(id)
}

/// A group after some members left.
pub open spec fn after_leave(group: GroupView, gone: Seq<Seq<char>>) -> GroupView {
    GroupView {
        members: group.members.filter(staying(gone)),
        assignments: group.assignments.restrict(
            Set::new(
                |id: Seq<char>| group.assignments.contains_key(id) && !gone.contains(id),
            ),
        ),
        ..group
    }
}

/// What LeaveGroup does; its answer is NONE in any case.
pub open spec fn spec_leave_group(state: ClusterView, ask: LeaveGroupAskView, faults: Seq<Fault>)
    -> ClusterView {
    if faults.contains(Fault::LeaveGroupKeepsTheMember) || !state.groups.contains_key(
        ask.group_id,
    ) {
        state
    } else {
        ClusterView {
            groups: state.groups.insert(
                ask.group_id,
                after_leave(state.groups[ask.group_id], leaving(ask)),
            ),
            ..state
        }
    }
}

fn stay(members: &Vec<String>, gone: &Vec<String>) -> (r: Vec<String>)
    ensures
        text::views(r@) == text::views(members@).filter(staying(text::views(gone@))),
{
    let ghost all = text::views(members@);
    let ghost stays = staying(text::views(gone@));
    let mut kept: Vec<String> = Vec::new();
    let mut i: usize = 0;
    assert(all.take(0).filter(stays) =~= Seq::empty()) by {
        reveal(Seq::filter);
    }
    assert(text::views(kept@) =~= Seq::empty());
    while i < members.len()
        invariant
            i <= members@.len(),
            all == text::views(members@),
            stays == staying(text::views(gone@)),
            text::views(kept@) == all.take(i as int).filter(stays),
        decreases members@.len() - i,
    {
        proof {
            assert(all.take(i + 1).drop_last() =~= all.take(i as int));
            assert(all[i as int] == members@[i as int]@);
            reveal(Seq::filter);
        }
        if !is_among(gone, members[i].as_str()) {
            let ghost before = text::views(kept@);
            kept.push(members[i].clone());
            assert(text::views(kept@) =~= before.push(all[i as int]));
        }
        i = i + 1;
    }
    assert(all.take(i as int) =~= all);
    kept
}

fn drop_assignments(group: &mut GroupState, gone: &Vec<String>)
    ensures
        final(group)@ == (GroupView {
            assignments: after_leave(old(group)@, text::views(gone@)).assignments,
            ..old(group)@
        }),
{
    let ghost start = group@;
    let ghost all = text::views(gone@);
    let mut i: usize = 0;
    while i < gone.len()
        invariant
            i <= gone@.len(),
            start == old(group)@,
            all == text::views(gone@),
            group@ == (GroupView { assignments: group@.assignments, ..start }),
            forall|id: Seq<char>|
                #![trigger group@.assignments.contains_key(id)]
                group@.assignments.contains_key(id) <==> start.assignments.contains_key(id)
                    && !all.take(i as int).contains(id),
            forall|id: Seq<char>|
                group@.assignments.contains_key(id) ==> #[trigger] group@.assignments[id]
                    == start.assignments[id],
        decreases gone@.len() - i,
    {
        let ghost before = group@.assignments;
        group.assignments.remove(&gone[i]);
        proof {
            assert(all[i as int] == gone@[i as int]@);
            assert forall|id: Seq<char>|
                #![trigger group@.assignments.contains_key(id)]
                group@.assignments.contains_key(id) <==> start.assignments.contains_key(id)
                    && !all.take(i + 1).contains(id) by {
                assert(before.contains_key(id) <==> start.assignments.contains_key(id)
                    && !all.take(i as int).contains(id));
                let longer = all.take(i + 1);
                let shorter = all.take(i as int);
                if shorter.contains(id) {
                    let k = choose|k: int| 0 <= k < shorter.len() && shorter[k] == id;
                    assert(longer[k] == id);
                }
                if longer.contains(id) && id != all[i as int] {
                    let k = choose|k: int| 0 <= k < longer.len() && longer[k] == id;
                    assert(shorter[k] == id);
                }
                if id == all[i as int] {
                    assert(longer[i as int] == id);
                }
            }
        }
        i = i + 1;
    }
    assert(all.take(i as int) =~= all);
    assert(group@.assignments =~= after_leave(start, all).assignments);
}

fn copy_names(names: &Vec<String>) -> (r: Vec<String>)
    ensures
        text::views(r@) == text::views(names@),
{
    let mut copy: Vec<String> = Vec::new();
    let mut i: usize = 0;
    while i < names.len()
        invariant
            i <= names@.len(),
            copy@ == names@.take(i as int),
        decreases names@.len() - i,
    {
        copy.push(names[i].clone());
        i = i + 1;
        assert(copy@ =~= names@.take(i as int));
    }
    assert(names@.take(i as int) =~= names@);
    copy
}

/// Carries out LeaveGroup: the members it names are forgotten, in whichever
/// shape it names them. It is acknowledged in any case.
pub fn leave_group(state: &mut ClusterState, ask: &LeaveGroupAsk, faults: &Vec<Fault>) -> (r: i16)
    ensures
        r == NONE,
        final(state)@ == spec_leave_group(old(state)@, ask@, faults@),
{
    let mut gone = copy_names(&ask.members);
    if ask.member_id.as_str().unicode_len() > 0 {
        let ghost before = text::views(gone@);
        gone.push(ask.member_id.clone());
        assert(text::views(gone@) =~= before.push(ask.member_id@));
    }
    assert(text::views(gone@) == leaving(ask@));
    if !injected(faults, Fault::LeaveGroupKeepsTheMember) {
        if let Some(group) = state.groups.get_mut(&ask.group_id) {
            let ghost start = group@;
            let kept = stay(&group.members, &gone);
            drop_assignments(group, &gone);
            group.members = kept;
            assert(group@ =~= after_leave(start, text::views(gone@)));
        }
    }
    NONE
}

/// A group's member as DescribeGroups names it.
pub open spec fn spec_described_member(group: GroupView, id: Seq<char>) -> DescribedMemberView {
    DescribedMemberView {
        member_id: id,
        client_id: "odradek-acceptance"@,
        client_host: "/127.0.0.1"@,
        member_assignment: if group.assignments.contains_key(id) {
            group.assignments[id]
        } else {
            Seq::empty()
        },
    }
}

/// A group as DescribeGroups names it.
pub open spec fn spec_described(state: ClusterView, id: Seq<char>, faults: Seq<Fault>)
    -> DescribedGroupView {
    if state.groups.contains_key(id) {
        let group = state.groups[id];
        DescribedGroupView {
            error_code: NONE,
            group_id: id,
            group_state: "Stable"@,
            protocol_type: group.protocol_type,
            protocol_data: group.protocol_name,
            members: if faults.contains(Fault::DescribeGroupsHidesMembers) {
                Seq::empty()
            } else {
                group.members.map_values(|m: Seq<char>| spec_described_member(group, m))
            },
        }
    } else {
        DescribedGroupView {
            error_code: NONE,
            group_id: id,
            group_state: "Dead"@,
            protocol_type: ""@,
            protocol_data: ""@,
            members: Seq::empty(),
        }
    }
}

/// What DescribeGroups answers.
pub open spec fn spec_describe_groups(
    state: ClusterView,
    ask: DescribeGroupsAskView,
    faults: Seq<Fault>,
) -> DescribeGroupsReplyView {
    DescribeGroupsReplyView {
        groups: ask.groups.map_values(|id: Seq<char>| spec_described(state, id, faults)),
    }
}

fn describe_members(group: &GroupState) -> (r: Vec<DescribedMember>)
    ensures
        r@.map_values(|row: DescribedMember| row@) == group@.members.map_values(
            |m: Seq<char>| spec_described_member(group@, m),
        ),
{
    let mut rows: Vec<DescribedMember> = Vec::new();
    let mut i: usize = 0;
    while i < group.members.len()
        invariant
            i <= group.members@.len(),
            rows@.len() == i,
            forall|j: int|
                0 <= j < i ==> (#[trigger] rows@[j])@ == spec_described_member(
                    group@,
                    group.members@[j]@,
                ),
        decreases group.members@.len() - i,
    {
        let id = &group.members[i];
        let member_assignment = match group.assignments.get(id) {
            Some(bytes) => copy_bytes(bytes),
            None => Vec::new(),
        };
        rows.push(
            DescribedMember {
                member_id: id.clone(),
                client_id: String::from_str("odradek-acceptance"),
                client_host: String::from_str("/127.0.0.1"),
                member_assignment,
            },
        );
        i = i + 1;
    }
    assert(rows@.map_values(|row: DescribedMember| row@) =~= group@.members.map_values(
        |m: Seq<char>| spec_described_member(group@, m),
    ));
    rows
}

fn describe_group(state: &ClusterState, id: &String, faults: &Vec<Fault>) -> (r: DescribedGroup)
    ensures
        r@ == spec_described(state@, id@, faults@),
{
    match state.groups.get(id) {
        Some(group) => {
            let members = if injected(faults, Fault::DescribeGroupsHidesMembers) {
                Vec::new()
            } else {
                describe_members(group)
            };
            let r = DescribedGroup {
                error_code: NONE,
                group_id: id.clone(),
                group_state: String::from_str("Stable"),
                protocol_type: group.protocol_type.clone(),
                protocol_data: group.protocol_name.clone(),
                members,
            };
            assert(r@.members =~= spec_described(state@, id@, faults@).members);
            r
        },
        None => {
            let r = DescribedGroup {
                error_code: NONE,
                group_id: id.clone(),
                group_state: String::from_str("Dead"),
                protocol_type: String::from_str(""),
                protocol_data: String::from_str(""),
                members: Vec::new(),
            };
            assert(r@.members =~= Seq::empty());
            r
        },
    }
}

/// Answers DescribeGroups: who is in each group, and with what.
pub fn describe_groups(state: &ClusterState, ask: &DescribeGroupsAsk, faults: &Vec<Fault>) -> (r:
    DescribeGroupsReply)
    ensures
        r@ == spec_describe_groups(state@, ask@, faults@),
{
    let mut groups: Vec<DescribedGroup> = Vec::new();
    let mut i: usize = 0;
    while i < ask.groups.len()
        invariant
            i <= ask.groups@.len(),
            groups@.len() == i,
            forall|j: int|
                0 <= j < i ==> (#[trigger] groups@[j])@ == spec_described(
                    state@,
                    ask@.groups[j],
                    faults@,
                ),
        decreases ask.groups@.len() - i,
    {
        assert(ask@.groups[i as int] == ask.groups@[i as int]@);
        groups.push(describe_group(state, &ask.groups[i], faults));
        i = i + 1;
    }
    let r = DescribeGroupsReply { groups };
    assert(r@.groups =~= spec_describe_groups(state@, ask@, faults@).groups);
    r
}

/// The ids of the subscribed topics that exist, in order.
pub open spec fn assigned_ids(created: Map<Seq<char>, Seq<u8>>, subscribed: Seq<Seq<char>>) -> Seq<
    Seq<u8>,
>
    decreases subscribed.len(),
{
    if subscribed.len() == 0 {
        Seq::empty()
    } else {
        let rest = assigned_ids(created, subscribed.drop_last());
        if created.contains_key(subscribed.last()) {
            rest.push(created[subscribed.last()])
        } else {
            rest
        }
    }
}

/// A member as a heartbeat finds it: one that introduces itself is admitted,
/// which is what its epoch records.
pub open spec fn met(state: ClusterView, key: (Seq<char>, Seq<char>), faults: Seq<Fault>)
    -> MemberView {
    if state.members.contains_key(key) {
        state.members[key]
    } else {
        MemberView {
            epoch: if faults.contains(Fault::ConsumerGroupEpochStuck) {
                0
            } else {
                1
            },
            ..state::new_member()
        }
    }
}

/// What a member is subscribed to after a heartbeat: only a stated
/// subscription replaces the one on file.
pub open spec fn subscription(
    member: MemberView,
    stated: Option<Seq<Seq<char>>>,
    faults: Seq<Fault>,
) -> Seq<Seq<char>> {
    match stated {
        Some(names) => names,
        None => if faults.contains(Fault::ConsumerGroupNullSubscriptionRevokes) {
            Seq::empty()
        } else {
            member.subscribed
        },
    }
}

/// The ids of the topics that a member has after a heartbeat.
pub open spec fn assignment_of(
    state: ClusterView,
    subscribed: Seq<Seq<char>>,
    faults: Seq<Fault>,
) -> Seq<Seq<u8>> {
    if faults.contains(Fault::ConsumerGroupAssignsNothing) {
        Seq::empty()
    } else {
        assigned_ids(state.created, subscribed)
    }
}

/// A heartbeat's answer.
pub open spec fn heartbeat_answer(
    member_id: Seq<char>,
    error_code: i16,
    member_epoch: i32,
    assignment: Option<Seq<AssignedTopicView>>,
) -> ConsumerGroupReplyView {
    ConsumerGroupReplyView {
        error_code,
        member_id: Some(member_id),
        member_epoch,
        heartbeat_interval_ms: HEARTBEAT_INTERVAL_MS,
        assignment,
    }
}

/// Each topic of an assignment with its one partition.
pub open spec fn assigned_topics(ids: Seq<Seq<u8>>) -> Seq<AssignedTopicView> {
    ids.map_values(|id: Seq<u8>| AssignedTopicView { topic_id: id, partitions: seq![0i32] })
}

/// What a heartbeat of a member that is let through does and answers. An
/// assignment is told only when it is news.
pub open spec fn steady(state: ClusterView, ask: ConsumerGroupAskView, faults: Seq<Fault>) -> (
    ClusterView,
    ConsumerGroupReplyView,
) {
    let key = (ask.group_id, ask.member_id);
    let member = met(state, key, faults);
    let subscribed = subscription(member, ask.subscribed, faults);
    let ids = assignment_of(state, subscribed, faults);
    (
        ClusterView {
            members: state.members.insert(
                key,
                MemberView { epoch: member.epoch, subscribed, told: Some(ids) },
            ),
            ..state
        },
        heartbeat_answer(
            ask.member_id,
            NONE,
            member.epoch,
            if member.told == Some(ids) {
                None
            } else {
                Some(assigned_topics(ids))
            },
        ),
    )
}

/// What ConsumerGroupHeartbeat does and answers.
pub open spec fn spec_consumer_group(
    state: ClusterView,
    ask: ConsumerGroupAskView,
    faults: Seq<Fault>,
) -> (ClusterView, ConsumerGroupReplyView) {
    let key = (ask.group_id, ask.member_id);
    if ask.member_epoch == LEAVE_EPOCH {
        (
            ClusterView { members: state.members.remove(key), ..state },
            heartbeat_answer(ask.member_id, NONE, LEAVE_EPOCH, None),
        )
    } else if state.members.contains_key(key) && ask.member_epoch != state.members[key].epoch
        && !faults.contains(Fault::ConsumerGroupIgnoresEpoch) {
        (state, heartbeat_answer(ask.member_id, FENCED_MEMBER_EPOCH, 0, None))
    } else if !state.members.contains_key(key) && ask.member_epoch != 0 {
        (state, heartbeat_answer(ask.member_id, UNKNOWN_MEMBER_ID, 0, None))
    } else {
        steady(state, ask, faults)
    }
}

fn assign(state: &ClusterState, subscribed: &Vec<String>, faults: &Vec<Fault>) -> (r: Vec<TopicId>)
    ensures
        state::id_views(r@) == assignment_of(state@, text::views(subscribed@), faults@),
{
    let mut ids: Vec<TopicId> = Vec::new();
    assert(state::id_views(ids@) =~= Seq::empty());
    if injected(faults, Fault::ConsumerGroupAssignsNothing) {
        return ids;
    }
    let ghost all = text::views(subscribed@);
    let mut i: usize = 0;
    while i < subscribed.len()
        invariant
            i <= subscribed@.len(),
            all == text::views(subscribed@),
            state::id_views(ids@) == assigned_ids(state@.created, all.take(i as int)),
        decreases subscribed@.len() - i,
    {
        assert(all.take(i + 1).drop_last() =~= all.take(i as int));
        assert(all[i as int] == subscribed@[i as int]@);
        if let Some(id) = state.created.get(&subscribed[i]) {
            let ghost before = state::id_views(ids@);
            ids.push(*id);
            assert(state::id_views(ids@) =~= before.push(id@));
        }
        i = i + 1;
    }
    assert(all.take(i as int) =~= all);
    ids
}

fn same_ids(a: &Vec<TopicId>, b: &Vec<TopicId>) -> (r: bool)
    ensures
        r == (state::id_views(a@) == state::id_views(b@)),
{
    let ghost left = state::id_views(a@);
    let ghost right = state::id_views(b@);
    if a.len() != b.len() {
        assert(left.len() != right.len());
        return false;
    }
    let mut i: usize = 0;
    while i < a.len()
        invariant
            i <= a@.len(),
            a@.len() == b@.len(),
            left == state::id_views(a@),
            right == state::id_views(b@),
            forall|j: int| 0 <= j < i ==> left[j] == right[j],
        decreases a@.len() - i,
    {
        assert(left[i as int] == a@[i as int]@);
        assert(right[i as int] == b@[i as int]@);
        if !same_bytes(a[i].as_slice(), b[i].as_slice()) {
            return false;
        }
        i = i + 1;
    }
    assert(left =~= right);
    true
}

fn tell(ids: &Vec<TopicId>) -> (r: Vec<AssignedTopic>)
    ensures
        r@.map_values(|row: AssignedTopic| row@) == assigned_topics(state::id_views(ids@)),
{
    let mut rows: Vec<AssignedTopic> = Vec::new();
    let mut i: usize = 0;
    while i < ids.len()
        invariant
            i <= ids@.len(),
            rows@.len() == i,
            forall|j: int|
                0 <= j < i ==> (#[trigger] rows@[j])@ == (AssignedTopicView {
                    topic_id: ids@[j]@,
                    partitions: seq![0i32],
                }),
        decreases ids@.len() - i,
    {
        let partitions: Vec<i32> = vec![0];
        assert(partitions@ =~= seq![0i32]);
        rows.push(AssignedTopic { topic_id: ids[i], partitions });
        i = i + 1;
    }
    assert(rows@.map_values(|row: AssignedTopic| row@) =~= assigned_topics(
        state::id_views(ids@),
    ));
    rows
}

fn answer_heartbeat(
    member_id: &String,
    error_code: i16,
    member_epoch: i32,
    assignment: Option<Vec<AssignedTopic>>,
) -> (r: ConsumerGroupReply)
    ensures
        r@ == heartbeat_answer(
            member_id@,
            error_code,
            member_epoch,
            match assignment {
                Some(rows) => Some(rows@.map_values(|row: AssignedTopic| row@)),
                None => None,
            },
        ),
{
    ConsumerGroupReply {
        error_code,
        member_id: Some(member_id.clone()),
        member_epoch,
        heartbeat_interval_ms: HEARTBEAT_INTERVAL_MS,
        assignment,
    }
}

/// The member as it is on file, or as it would be on meeting it, but for what
/// it was told; and what it was told.
fn meet(state: &ClusterState, key: &(String, String), faults: &Vec<Fault>) -> (r: Member)
    ensures
        r@ == met(state@, key@, faults@),
{
    match state.members.get(key) {
        Some(member) => {
            let told = match &member.told {
                Some(ids) => Some(copy_ids(ids)),
                None => None,
            };
            Member { epoch: member.epoch, subscribed: copy_names(&member.subscribed), told }
        },
        None => {
            let epoch: i32 = if injected(faults, Fault::ConsumerGroupEpochStuck) {
                0
            } else {
                1
            };
            let r = Member { epoch, subscribed: Vec::new(), told: None };
            assert(r@ =~= met(state@, key@, faults@));
            r
        },
    }
}

fn copy_ids(ids: &Vec<TopicId>) -> (r: Vec<TopicId>)
    ensures
        state::id_views(r@) == state::id_views(ids@),
{
    let mut copy: Vec<TopicId> = Vec::new();
    let mut i: usize = 0;
    while i < ids.len()
        invariant
            i <= ids@.len(),
            copy@ == ids@.take(i as int),
        decreases ids@.len() - i,
    {
        copy.push(ids[i]);
        i = i + 1;
        assert(copy@ =~= ids@.take(i as int));
    }
    assert(ids@.take(i as int) =~= ids@);
    copy
}

/// Answers ConsumerGroupHeartbeat: the whole membership in one call.
pub fn consumer_group(state: &mut ClusterState, ask: &ConsumerGroupAsk, faults: &Vec<Fault>) -> (r:
    ConsumerGroupReply)
    ensures
        (final(state)@, r@) == spec_consumer_group(old(state)@, ask@, faults@),
{
    let ghost start = state@;
    let key = (ask.group_id.clone(), ask.member_id.clone());
    if ask.member_epoch == LEAVE_EPOCH {
        state.members.remove(&key);
        return answer_heartbeat(&ask.member_id, NONE, LEAVE_EPOCH, None);
    }
    match state.members.get(&key) {
        Some(member) => {
            if ask.member_epoch != member.epoch && !injected(
                faults,
                Fault::ConsumerGroupIgnoresEpoch,
            ) {
                return answer_heartbeat(&ask.member_id, FENCED_MEMBER_EPOCH, 0, None);
            }
        },
        None => {
            if ask.member_epoch != 0 {
                return answer_heartbeat(&ask.member_id, UNKNOWN_MEMBER_ID, 0, None);
            }
        },
    }
    let member = meet(state, &key, faults);
    let ghost found = member@;
    let subscribed: Vec<String> = match &ask.subscribed {
        Some(names) => copy_names(names),
        None => {
            if injected(faults, Fault::ConsumerGroupNullSubscriptionRevokes) {
                Vec::new()
            } else {
                copy_names(&member.subscribed)
            }
        },
    };
    assert(text::views(subscribed@) =~= subscription(found, ask@.subscribed, faults@));
    let ids = assign(state, &subscribed, faults);
    let unchanged = match &member.told {
        Some(told) => same_ids(told, &ids),
        None => false,
    };
    let assignment = if unchanged {
        None
    } else {
        Some(tell(&ids))
    };
    let epoch: i32 = member.epoch;
    state.members.insert(key, Member { epoch, subscribed, told: Some(ids) });
    answer_heartbeat(&ask.member_id, NONE, epoch, assignment)
}

} // verus!

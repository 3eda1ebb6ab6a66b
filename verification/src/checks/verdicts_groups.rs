//! When a subject passes the checks on groups and committed offsets, said of the
//! answers it gave.

use vstd::prelude::*;

use crate::checks::calibration;
use crate::checks::ctx;
use crate::checks::ctx::ServerCtx;
use crate::checks::find;
use crate::checks::flows;
use crate::checks::flows::{Addressing, ProducedView};
use crate::checks::group_flows;
use crate::checks::server::ServerCheck;
use crate::checks::server_groups;
use crate::checks::tape;
use crate::checks::tape::{ErrorView, Event, HaltView};
use crate::checks::verdicts;
use crate::wire;
use crate::wire::{
    AssignedTopic, CommittedTopic, ConsumerGroupAnswer, DescribedRow, ErrorCode,
    FindCoordinatorAnswer, JoinGroupAnswer, OffsetFetchAnswer, Response, SyncGroupAnswer, TopicId,
};
use crate::VerdictView;

verus! {

/// Whether an answer names a coordinator that can be reached, for the group that
/// was asked about. From version 4 on it is a row with the group's name.
pub open spec fn names_coordinator(
    answer: FindCoordinatorAnswer,
    version: i16,
    group: Seq<char>,
) -> bool {
    if version >= 4 {
        &&& answer.coordinators@.len() == 1
        &&& answer.coordinators@[0].error.code == 0
        &&& answer.coordinators@[0].key@ == group
        &&& answer.coordinators@[0].host@.len() > 0
        &&& 1 <= answer.coordinators@[0].port <= 65535
    } else {
        &&& answer.error.code == 0
        &&& answer.host@.len() > 0
        &&& 1 <= answer.port <= 65535
    }
}

/// The coordinator: a pass exactly if the answer names one.
pub proof fn law_coordinators_are_judged(
    answer: FindCoordinatorAnswer,
    version: i16,
    group: Seq<char>,
)
    ensures
        ({
            let verdict = server_groups::spec_judge_coordinator(answer, version, group);
            if names_coordinator(answer, version, group) {
                verdict == VerdictView::Pass
            } else {
                verdict is Fail
            }
        }),
{
}

/// Whether a place on the tape holds such an answer.
pub open spec fn names_at(tape: Seq<Event>, i: int, version: i16, group: Seq<char>) -> bool {
    verdicts::answer_at(tape, i) matches Some(Response::FindCoordinator(answer))
        && names_coordinator(answer, version, group)
}

proof fn lemma_waited(
    ctx: ServerCtx,
    tape: Seq<Event>,
    at: int,
    conn: usize,
    version: i16,
    group: Seq<char>,
    base: i32,
    attempt: int,
    last: Seq<char>,
)
    ensures
        tape::spec_settle(
            server_groups::spec_coordinator_wait(
                ctx,
                tape,
                at,
                conn,
                version,
                group,
                base,
                attempt,
                last,
            ),
        ) matches Ok((verdict, to)) ==> verdict is Fail || verdict is Error || names_at(
            tape,
            to - 1,
            version,
            group,
        ),
    decreases ctx.config.spec_settle_attempts() - attempt,
{
    if attempt < ctx.config.spec_settle_attempts() {
        match tape::spec_pause_between(tape, at, attempt) {
            Ok((_, paused)) => match verdicts::answer_at(tape, paused) {
                Some(Response::FindCoordinator(answer)) => {
                    law_coordinators_are_judged(answer, version, group);
                    lemma_waited(
                        ctx,
                        tape,
                        paused + 1,
                        conn,
                        version,
                        group,
                        base,
                        attempt + 1,
                        server_groups::spec_settling_text(answer, version),
                    );
                },
                _ => {},
            },
            Err(_) => {},
        }
    }
}

proof fn lemma_swept(
    ctx: ServerCtx,
    tape: Seq<Event>,
    at: int,
    group: Seq<char>,
    versions: Seq<i16>,
    i: int,
    j: int,
)
    requires
        0 <= i <= j < versions.len(),
    ensures
        server_groups::spec_coordinator_sweep(ctx, tape, at, group, versions, i) matches Ok(_)
            ==> exists|k: int| #[trigger] names_at(tape, k, versions[j], group),
    decreases versions.len() - i,
{
    let base = ctx::spec_correlation(51, 32 * i);
    match tape::spec_connect(tape, at, ctx.addr@) {
        Ok((conn, connected)) => {
            lemma_waited(ctx, tape, connected, conn, versions[i], group, base, 0, ""@);
        },
        Err(_) => {},
    }
    match tape::spec_settle(
        server_groups::spec_find_coordinator_at(ctx, tape, at, versions[i], group, base),
    ) {
        Ok((_, to)) => {
            if i < j {
                lemma_swept(ctx, tape, to, group, versions, i + 1, j);
            }
        },
        Err(_) => {},
    }
}

/// A pass of the coordinator's check rests, for every version, on an answer that
/// names one.
#[verifier::rlimit(60)]
#[verifier::spinoff_prover]
pub proof fn law_coordinators_pass(
    ctx: ServerCtx,
    tape: Seq<Event>,
    versions: Seq<i16>,
    j: int,
    to: int,
)
    requires
        verdicts::passed(ServerCheck::FindCoordinatorGroup, ctx, tape, to),
        ctx.spec_versions(
            0,
            "FindCoordinator"@,
            wire::FIND_COORDINATOR,
            ctx.schema.find_coordinator.min,
            ctx.schema.find_coordinator.max,
        ) == Ok::<Seq<i16>, HaltView>(versions),
        0 <= j < versions.len(),
    ensures
        exists|k: int| #[trigger]
            names_at(tape, k, versions[j], ctx.spec_check_group("find-coordinator"@)),
{
    let group = ctx.spec_check_group("find-coordinator"@);
    lemma_swept(ctx, tape, 0, group, versions, 0, j);
}

/// An offset that is read back passes exactly if it is the one committed, 7.
pub proof fn law_read_backs_are_judged(version: i16, got: i64)
    ensures
        server_groups::spec_judge_read_back(version, got) is Pass <==> got == 7,
        server_groups::spec_judge_read_back(version, got) is Fail <==> got != 7,
{
}

/// Whether the rows of an answer give an offset for a topic without an error.
pub open spec fn rows_give(
    topics: Seq<CommittedTopic>,
    version: i16,
    topic: Seq<char>,
    topic_id: TopicId,
    offset: i64,
) -> bool {
    exists|j: int|
        0 <= j < topics.len() && (if version >= 10 {
            (#[trigger] topics[j]).topic_id@ == topic_id@
        } else {
            topics[j].name@ == topic
        }) && topics[j].partitions@.len() > 0 && topics[j].partitions@[0].error.code == 0
            && topics[j].partitions@[0].offset == offset
}

/// Whether an OffsetFetch answer gives an offset for a group's topic without an
/// error. From version 8 on the rows stand under the group's name.
pub open spec fn answer_gives(
    answer: OffsetFetchAnswer,
    version: i16,
    group: Seq<char>,
    topic: Seq<char>,
    topic_id: TopicId,
    offset: i64,
) -> bool {
    if version >= 8 {
        exists|i: int|
            0 <= i < answer.groups@.len() && (#[trigger] answer.groups@[i]).group_id@ == group
                && answer.groups@[i].error.code == 0 && rows_give(
                answer.groups@[i].topics@,
                version,
                topic,
                topic_id,
                offset,
            )
    } else {
        rows_give(answer.topics@, version, topic, topic_id, offset)
    }
}

proof fn lemma_rows_give(
    topics: Seq<CommittedTopic>,
    version: i16,
    topic: Seq<char>,
    topic_id: TopicId,
)
    ensures
        match find::first_where(topics, find::committed_for(version, topic, topic_id)) {
            Some(t) => t.partitions@.len() > 0 && t.partitions@[0].error.code == 0 ==> rows_give(
                topics,
                version,
                topic,
                topic_id,
                t.partitions@[0].offset,
            ),
            None => true,
        },
{
    let wanted = find::committed_for(version, topic, topic_id);
    calibration::lemma_first_where(topics, wanted);
    match find::first_where(topics, wanted) {
        Some(t) => {
            let j = choose|j: int| 0 <= j < topics.len() && topics[j] == t;
            assert(wanted(topics[j]));
        },
        None => {},
    }
}

/// An offset that was read: the answer gives it, for the group and the topic
/// that were asked about.
pub proof fn law_committed_offsets_are_read(
    answer: OffsetFetchAnswer,
    version: i16,
    group: Seq<char>,
    topic: Seq<char>,
    topic_id: TopicId,
)
    ensures
        group_flows::spec_committed_row(answer, version, group, topic, topic_id) matches Ok(
            (code, offset),
        ) ==> (code.code == 0 ==> answer_gives(answer, version, group, topic, topic_id, offset)),
{
    if version >= 8 {
        calibration::lemma_first_where(answer.groups@, find::for_group(group));
        match find::first_where(answer.groups@, find::for_group(group)) {
            Some(entry) => {
                let i = choose|i: int| 0 <= i < answer.groups@.len() && answer.groups@[i] == entry;
                assert(answer.groups@[i].group_id@ == group);
                lemma_rows_give(entry.topics@, version, topic, topic_id);
            },
            None => {},
        }
    } else {
        lemma_rows_give(answer.topics@, version, topic, topic_id);
    }
}

/// Whether a place on the tape holds such an answer.
pub open spec fn reads_at(
    tape: Seq<Event>,
    i: int,
    version: i16,
    group: Seq<char>,
    topic: Seq<char>,
    topic_id: TopicId,
    offset: i64,
) -> bool {
    verdicts::answer_at(tape, i) matches Some(Response::OffsetFetch(answer)) && answer_gives(
        answer,
        version,
        group,
        topic,
        topic_id,
        offset,
    )
}

/// An offset that was fetched is one that the answer gives.
pub proof fn lemma_reads(
    tape: Seq<Event>,
    at: int,
    conn: usize,
    version: i16,
    group: Seq<char>,
    topic: Seq<char>,
    topic_id: TopicId,
    correlation: i32,
)
    ensures
        group_flows::spec_fetch_committed(
            tape,
            at,
            conn,
            version,
            group,
            topic,
            topic_id,
            correlation,
        ) matches Ok((got, to)) ==> to == at + 1 && reads_at(
            tape,
            at,
            version,
            group,
            topic,
            topic_id,
            got,
        ),
{
    match verdicts::answer_at(tape, at) {
        Some(Response::OffsetFetch(answer)) => {
            law_committed_offsets_are_read(answer, version, group, topic, topic_id);
        },
        _ => {},
    }
}

proof fn lemma_read_backs(
    tape: Seq<Event>,
    at: int,
    conn: usize,
    group: Seq<char>,
    produced: ProducedView,
    versions: Seq<i16>,
    i: int,
    j: int,
)
    requires
        0 <= i <= j < versions.len(),
        versions[j] < 10 || produced.topic_id@ != wire::zero_id(),
    ensures
        server_groups::spec_read_back_sweep(tape, at, conn, group, produced, versions, i) matches Ok(
            _,
        ) ==> exists|k: int| #[trigger]
            reads_at(tape, k, versions[j], group, produced.topic, produced.topic_id, 7),
    decreases versions.len() - i,
{
    if versions[i] >= 10 && produced.topic_id@ == wire::zero_id() {
        lemma_read_backs(tape, at, conn, group, produced, versions, i + 1, j);
    } else {
        lemma_reads(
            tape,
            at,
            conn,
            versions[i],
            group,
            produced.topic,
            produced.topic_id,
            ctx::spec_correlation(62, i),
        );
        if i < j {
            lemma_read_backs(tape, at + 1, conn, group, produced, versions, i + 1, j);
        }
    }
}

/// A pass of the round trip rests, for every version that can address the topic,
/// on an answer that gives 7 for the group and the topic.
#[verifier::rlimit(60)]
#[verifier::spinoff_prover]
pub proof fn law_round_trips_pass(
    ctx: ServerCtx,
    tape: Seq<Event>,
    versions: Seq<i16>,
    produced: ProducedView,
    at: int,
    j: int,
    to: int,
)
    requires
        verdicts::passed(ServerCheck::OffsetsCommitFetchRoundtrip, ctx, tape, to),
        ctx.spec_versions(
            0,
            "OffsetFetch"@,
            wire::OFFSET_FETCH,
            ctx.schema.offset_fetch.min,
            ctx.schema.offset_fetch.max,
        ) == Ok::<Seq<i16>, HaltView>(versions),
        flows::spec_produce_flow(ctx, tape, 0, "offsets"@, Addressing::Name) == Ok::<
            (ProducedView, int),
            HaltView,
        >((produced, at)),
        0 <= j < versions.len(),
        versions[j] < 10 || produced.topic_id@ != wire::zero_id(),
    ensures
        exists|k: int| #[trigger]
            reads_at(
                tape,
                k,
                versions[j],
                ctx.spec_check_group(produced.topic),
                produced.topic,
                produced.topic_id,
                7,
            ),
{
    let commit = ctx.spec_version(
        0,
        "OffsetCommit"@,
        wire::OFFSET_COMMIT,
        ctx.schema.offset_commit.min,
        ctx.schema.offset_commit.max,
    )->Ok_0;
    let group = ctx.spec_check_group(produced.topic);
    let (conn, settled) = group_flows::spec_commit_settled(
        ctx,
        tape,
        at,
        group,
        produced,
        7,
        commit,
        55,
        0,
        ErrorView::Infra("no commit attempts were made"@),
    )->Ok_0;
    lemma_read_backs(tape, settled, conn, group, produced, versions, 0, j);
}

/// An offset that was never committed passes exactly if it reads as -1.
pub proof fn law_unset_offsets_are_judged(got: i64)
    ensures
        server_groups::spec_judge_unset(got) is Pass <==> got == -1,
        server_groups::spec_judge_unset(got) is Fail <==> got != -1,
{
}

/// A pass of that check rests on an answer that gives -1 for a group that is
/// named for never having committed.
#[verifier::rlimit(60)]
#[verifier::spinoff_prover]
pub proof fn law_unset_offsets_pass(
    ctx: ServerCtx,
    tape: Seq<Event>,
    versions: (i16, i16),
    produced: ProducedView,
    at: int,
    to: int,
)
    requires
        verdicts::passed(ServerCheck::OffsetsUnsetIsSentinel, ctx, tape, to),
        server_groups::spec_offsets_versions(ctx, 0) == Ok::<(i16, i16), HaltView>(versions),
        flows::spec_produce_flow(ctx, tape, 0, "unset"@, Addressing::Name) == Ok::<
            (ProducedView, int),
            HaltView,
        >((produced, at)),
    ensures
        reads_at(
            tape,
            to - 1,
            versions.1,
            ctx.spec_check_group(produced.topic) + "-never-committed"@,
            produced.topic,
            produced.topic_id,
            -1i64,
        ),
{
    let group = ctx.spec_check_group(produced.topic) + "-never-committed"@;
    let (conn, found) = group_flows::spec_coordinator_conn(ctx, tape, at, group)->Ok_0;
    let (_, known) = group_flows::spec_await_topic_known(
        ctx,
        tape,
        found,
        conn,
        produced.topic,
        66,
    )->Ok_0;
    lemma_reads(
        tape,
        known,
        conn,
        versions.1,
        group,
        produced.topic,
        produced.topic_id,
        71,
    );
}

/// Metadata that is read back passes exactly if it is the text that was
/// committed, letter for letter.
pub proof fn law_metadata_is_judged(got: Option<Seq<char>>)
    ensures
        server_groups::spec_judge_metadata(got) is Pass <==> got == Some(
            "odradek:\u{e9}\"state\"/shard-7"@,
        ),
        server_groups::spec_judge_metadata(got) is Pass || server_groups::spec_judge_metadata(
            got,
        ) is Fail,
{
}

/// The metadata beside the first committed offset of an answer.
pub open spec fn metadata_in(answer: OffsetFetchAnswer, version: i16, text: Seq<char>) -> bool {
    if version >= 8 {
        &&& answer.groups@.len() > 0
        &&& answer.groups@[0].topics@.len() > 0
        &&& answer.groups@[0].topics@[0].partitions@.len() > 0
        &&& answer.groups@[0].topics@[0].partitions@[0].metadata matches Some(said) && said@ == text
    } else {
        &&& answer.topics@.len() > 0
        &&& answer.topics@[0].partitions@.len() > 0
        &&& answer.topics@[0].partitions@[0].metadata matches Some(said) && said@ == text
    }
}

/// A pass of that check rests on the last answer, which holds the text.
#[verifier::rlimit(60)]
#[verifier::spinoff_prover]
pub proof fn law_metadata_passes(
    ctx: ServerCtx,
    tape: Seq<Event>,
    versions: (i16, i16),
    to: int,
)
    requires
        verdicts::passed(ServerCheck::OffsetsMetadataRoundTrips, ctx, tape, to),
        server_groups::spec_offsets_versions(ctx, 0) == Ok::<(i16, i16), HaltView>(versions),
    ensures
        verdicts::answer_at(tape, to - 1) matches Some(Response::OffsetFetch(answer))
            && metadata_in(answer, versions.1, "odradek:\u{e9}\"state\"/shard-7"@),
        verdicts::answer_at(tape, to - 2) matches Some(Response::OffsetCommit(topics)) && (
        topics@.len() > 0 && topics@[0].partitions@.len() > 0
            ==> topics@[0].partitions@[0].code == 0),
{
}

/// A member that introduces itself: a pass exactly if it is taken without an
/// error, at an epoch other than 0, with a positive pace and a name.
pub proof fn law_admissions_are_judged(answer: ConsumerGroupAnswer)
    ensures
        ({
            let verdict = server_groups::spec_judge_admission(answer);
            if answer.error.code == 0 && answer.member_epoch != 0 && answer.heartbeat_interval_ms
                > 0 && (answer.member_id matches Some(id) && id@.len() > 0) {
                verdict == VerdictView::Pass
            } else {
                verdict is Fail
            }
        }),
{
}

/// A pass of that check rests on such an answer, just before the member leaves.
#[verifier::rlimit(60)]
#[verifier::spinoff_prover]
pub proof fn law_admissions_pass(ctx: ServerCtx, tape: Seq<Event>, to: int)
    requires
        verdicts::passed(ServerCheck::ConsumerGroupEpochAdvances, ctx, tape, to),
    ensures
        verdicts::answer_at(tape, to - 2) matches Some(Response::ConsumerGroup(answer))
            && answer.error.code == 0 && answer.member_epoch != 0 && answer.heartbeat_interval_ms
            > 0 && (answer.member_id matches Some(id) && id@.len() > 0),
{
}

/// An assignment: where its first row for the topic is at a known place, a pass
/// exactly if that row has partition 0; where there is no such row, a failure.
pub proof fn law_assignments_are_judged(
    assigned: Seq<AssignedTopic>,
    produced: ProducedView,
    j: int,
)
    ensures
        (0 <= j < assigned.len() && assigned[j].topic_id@ == produced.topic_id@ && forall|k: int|
            0 <= k < j ==> (#[trigger] assigned[k]).topic_id@ != produced.topic_id@) ==> {
            let verdict = server_groups::spec_judge_assigned(assigned, produced);
            if assigned[j].partitions@.contains(0) {
                verdict == VerdictView::Pass
            } else {
                verdict is Fail
            }
        },
        (forall|k: int|
            0 <= k < assigned.len() ==> (#[trigger] assigned[k]).topic_id@ != produced.topic_id@)
            ==> server_groups::spec_judge_assigned(assigned, produced) is Fail,
{
    let wanted = find::assigns(produced.topic_id);
    if 0 <= j < assigned.len() && assigned[j].topic_id@ == produced.topic_id@ && (forall|k: int|
        0 <= k < j ==> (#[trigger] assigned[k]).topic_id@ != produced.topic_id@) {
        verdicts::lemma_first_is(assigned, wanted, j);
    }
    if forall|k: int|
        0 <= k < assigned.len() ==> (#[trigger] assigned[k]).topic_id@ != produced.topic_id@ {
        verdicts::lemma_first_is_none(assigned, wanted);
    }
}

/// Whether an assignment gives partition 0 of a topic.
pub open spec fn assigns_zero(answer: ConsumerGroupAnswer, topic_id: TopicId) -> bool {
    answer.assignment matches Some(topics) && exists|j: int|
        0 <= j < topics@.len() && (#[trigger] topics@[j]).topic_id@ == topic_id@
            && topics@[j].partitions@.contains(0)
}

proof fn lemma_assigned(
    ctx: ServerCtx,
    tape: Seq<Event>,
    at: int,
    conn: usize,
    version: i16,
    group: Seq<char>,
    member_id: Seq<char>,
    topic: Seq<char>,
    base: i32,
    attempt: int,
    epoch: i32,
)
    ensures
        group_flows::spec_settle_assignment(
            ctx,
            tape,
            at,
            conn,
            version,
            group,
            member_id,
            topic,
            base,
            attempt,
            epoch,
        ) matches Ok((answer, to)) ==> verdicts::answer_at(tape, to - 1) == Some(
            Response::ConsumerGroup(answer),
        ) && answer.error.code == 0,
    decreases ctx.config.spec_settle_attempts() - attempt,
{
    if attempt < ctx.config.spec_settle_attempts() {
        match tape::spec_pause_between(tape, at, attempt) {
            Ok((_, paused)) => match verdicts::answer_at(tape, paused) {
                Some(Response::ConsumerGroup(answer)) => {
                    lemma_assigned(
                        ctx,
                        tape,
                        paused + 1,
                        conn,
                        version,
                        group,
                        member_id,
                        topic,
                        base,
                        attempt + 1,
                        answer.member_epoch,
                    );
                },
                _ => {},
            },
            Err(_) => {},
        }
    }
}

/// A pass of the assignment's check rests on an answer, just before the member
/// leaves, that gives partition 0 of the topic it subscribed to.
#[verifier::rlimit(60)]
#[verifier::spinoff_prover]
pub proof fn law_assignments_pass(
    ctx: ServerCtx,
    tape: Seq<Event>,
    produced: ProducedView,
    at: int,
    to: int,
)
    requires
        verdicts::passed(ServerCheck::ConsumerGroupAssignsSubscription, ctx, tape, to),
        flows::spec_produce_flow(ctx, tape, 0, "cgassign"@, Addressing::Name) == Ok::<
            (ProducedView, int),
            HaltView,
        >((produced, at)),
    ensures
        verdicts::answer_at(tape, to - 2) matches Some(Response::ConsumerGroup(answer))
            && answer.error.code == 0 && assigns_zero(answer, produced.topic_id),
{
    let version = server_groups::spec_consumer_group_version(ctx, 0)->Ok_0;
    let group = ctx.spec_check_group("cgassign"@);
    let (conn, found) = group_flows::spec_coordinator_conn(ctx, tape, at, group)->Ok_0;
    let member = ctx.spec_member_id("assign"@);
    lemma_assigned(
        ctx,
        tape,
        found,
        conn,
        version,
        group,
        member,
        produced.topic,
        160,
        0,
        0,
    );
    let (answer, settled) = group_flows::spec_settle_assignment(
        ctx,
        tape,
        found,
        conn,
        version,
        group,
        member,
        produced.topic,
        160,
        0,
        0,
    )->Ok_0;
    let assigned = group_flows::spec_assigned(answer);
    let wanted = find::assigns(produced.topic_id);
    calibration::lemma_first_where(assigned, wanted);
    match find::first_where(assigned, wanted) {
        Some(entry) => {
            let j = choose|j: int| 0 <= j < assigned.len() && assigned[j] == entry;
            assert(assigned[j].topic_id@ == produced.topic_id@);
        },
        None => {},
    }
}

/// A heartbeat that says nothing new: a pass exactly if it is answered without
/// an assignment, or with one that names the topic.
pub proof fn law_quiet_heartbeats_are_judged(
    assignment: Option<Vec<AssignedTopic>>,
    produced: ProducedView,
)
    ensures
        ({
            let verdict = server_groups::spec_judge_quiet(assignment, produced);
            if assignment matches Some(topics) ==> exists|j: int|
                0 <= j < topics@.len() && (#[trigger] topics@[j]).topic_id@ == produced.topic_id@ {
                verdict == VerdictView::Pass
            } else {
                verdict is Fail
            }
        }),
{
    match assignment {
        Some(topics) => {
            let wanted = find::assigns(produced.topic_id);
            calibration::lemma_first_where(topics@, wanted);
            match find::first_where(topics@, wanted) {
                Some(entry) => {
                    let j = choose|j: int| 0 <= j < topics@.len() && topics@[j] == entry;
                    assert(topics@[j].topic_id@ == produced.topic_id@);
                },
                None => {
                    assert forall|j: int| 0 <= j < topics@.len() implies (
                    #[trigger] topics@[j]).topic_id@ != produced.topic_id@ by {
                        assert(!wanted(topics@[j]));
                    }
                },
            }
        },
        None => {},
    }
}

/// A pass of that check rests on such an answer, without an error, just before
/// the member leaves.
#[verifier::rlimit(60)]
#[verifier::spinoff_prover]
pub proof fn law_quiet_heartbeats_pass(
    ctx: ServerCtx,
    tape: Seq<Event>,
    produced: ProducedView,
    at: int,
    to: int,
)
    requires
        verdicts::passed(ServerCheck::ConsumerGroupOmittedSubscription, ctx, tape, to),
        flows::spec_produce_flow(ctx, tape, 0, "cgsteady"@, Addressing::Name) == Ok::<
            (ProducedView, int),
            HaltView,
        >((produced, at)),
    ensures
        verdicts::answer_at(tape, to - 2) matches Some(Response::ConsumerGroup(answer))
            && answer.error.code == 0 && (answer.assignment matches Some(topics) ==> exists|j: int|
            0 <= j < topics@.len() && (#[trigger] topics@[j]).topic_id@ == produced.topic_id@),
{
    match verdicts::answer_at(tape, to - 2) {
        Some(Response::ConsumerGroup(answer)) => {
            law_quiet_heartbeats_are_judged(answer.assignment, produced);
        },
        _ => {},
    }
}

/// An epoch that was never issued passes exactly if it is fenced.
pub proof fn law_bogus_epochs_are_judged(code: ErrorCode, ahead: i32, issued: i32)
    ensures
        ({
            let verdict = server_groups::spec_judge_bogus_epoch(code, ahead, issued);
            if code.code == wire::FENCED_MEMBER_EPOCH {
                verdict == VerdictView::Pass
            } else {
                verdict is Fail
            }
        }),
{
}

/// A pass of that check rests on two answers: one that took the member, and one
/// that fenced it.
#[verifier::rlimit(60)]
#[verifier::spinoff_prover]
pub proof fn law_bogus_epochs_pass(ctx: ServerCtx, tape: Seq<Event>, to: int)
    requires
        verdicts::passed(ServerCheck::ConsumerGroupFencedEpoch, ctx, tape, to),
    ensures
        verdicts::answer_at(tape, to - 2) matches Some(Response::ConsumerGroup(answer))
            && answer.error.code == wire::FENCED_MEMBER_EPOCH,
        verdicts::answer_at(tape, to - 3) matches Some(Response::ConsumerGroup(answer))
            && answer.error.code == 0,
{
}

/// A member without a name passes exactly if it is asked for one and given one.
pub proof fn law_unnamed_members_are_judged(refused: JoinGroupAnswer, version: i16)
    ensures
        ({
            let verdict = server_groups::spec_judge_unnamed(refused, version);
            if refused.error.code == wire::MEMBER_ID_REQUIRED && refused.member_id@.len() > 0 {
                verdict == VerdictView::Pass
            } else {
                verdict is Fail
            }
        }),
{
}

/// Coming back with it passes exactly if it is taken.
pub proof fn law_rejoins_are_judged(code: ErrorCode)
    ensures
        server_groups::spec_judge_rejoin(code) is Pass <==> code.code == 0,
        server_groups::spec_judge_rejoin(code) is Fail <==> code.code != 0,
{
}

/// A pass of the two rests on the last two answers.
#[verifier::rlimit(60)]
#[verifier::spinoff_prover]
pub proof fn law_member_ids_pass(ctx: ServerCtx, tape: Seq<Event>, to: int)
    requires
        verdicts::passed(ServerCheck::GroupsMemberIdRequired, ctx, tape, to),
    ensures
        verdicts::answer_at(tape, to - 2) matches Some(Response::JoinGroup(refused))
            && refused.error.code == wire::MEMBER_ID_REQUIRED && refused.member_id@.len() > 0,
        verdicts::answer_at(tape, to - 1) matches Some(Response::JoinGroup(second))
            && second.error.code == 0,
{
}

/// What the leader hands out passes exactly if it comes back without an error,
/// byte for byte.
pub proof fn law_syncs_are_judged(answer: SyncGroupAnswer, sent: Seq<u8>)
    ensures
        ({
            let verdict = server_groups::spec_judge_synced(answer, sent);
            if answer.error.code == 0 && answer.assignment@ == sent {
                verdict == VerdictView::Pass
            } else {
                verdict is Fail
            }
        }),
{
}

/// A pass of that check rests on the last answer, which hands back the bytes that
/// were given.
#[verifier::rlimit(60)]
#[verifier::spinoff_prover]
pub proof fn law_syncs_pass(ctx: ServerCtx, tape: Seq<Event>, to: int)
    requires
        verdicts::passed(ServerCheck::GroupsAssignmentRoundTrips, ctx, tape, to),
    ensures
        verdicts::answer_at(tape, to - 1) matches Some(Response::SyncGroup(answer))
            && answer.error.code == 0 && answer.assignment@
            == seq![0x00u8, 0x03, 0xff, 0x7f, 0x00, 0xde, 0xad, 0xbe, 0xef],
{
}

/// A generation that has passed is answered as such, or the check fails.
pub proof fn law_stale_generations_are_judged(code: ErrorCode, stale: i32, generation: i32)
    ensures
        ({
            let verdict = server_groups::spec_judge_stale_generation(code, stale, generation);
            if code.code == wire::ILLEGAL_GENERATION {
                verdict == VerdictView::Pass
            } else {
                verdict is Fail
            }
        }),
{
}

/// A pass of that check rests on two answers: a join that was taken, and a
/// heartbeat that was refused for its generation.
#[verifier::rlimit(60)]
#[verifier::spinoff_prover]
pub proof fn law_stale_generations_pass(ctx: ServerCtx, tape: Seq<Event>, to: int)
    requires
        verdicts::passed(ServerCheck::GroupsStaleGenerationFenced, ctx, tape, to),
    ensures
        verdicts::answer_at(tape, to - 1) matches Some(Response::Code(code))
            && code.code == wire::ILLEGAL_GENERATION,
        verdicts::answer_at(tape, to - 2) matches Some(Response::JoinGroup(joined))
            && joined.error.code == 0,
{
}

/// A member that has left is no longer known, or the check fails.
pub proof fn law_departures_are_judged(code: ErrorCode, member_id: Seq<char>)
    ensures
        ({
            let verdict = server_groups::spec_judge_departed(code, member_id);
            if code.code == wire::UNKNOWN_MEMBER_ID {
                verdict == VerdictView::Pass
            } else {
                verdict is Fail
            }
        }),
{
}

/// A pass of that check rests on three heartbeats and a leave: known before it,
/// let go, unknown after it.
#[verifier::rlimit(60)]
#[verifier::spinoff_prover]
pub proof fn law_departures_pass(ctx: ServerCtx, tape: Seq<Event>, to: int)
    requires
        verdicts::passed(ServerCheck::GroupsLeaveUnregistersTheMember, ctx, tape, to),
    ensures
        verdicts::answer_at(tape, to - 3) matches Some(Response::Code(before)) && before.code == 0,
        verdicts::answer_at(tape, to - 2) matches Some(Response::Code(left)) && left.code == 0,
        verdicts::answer_at(tape, to - 1) matches Some(Response::Code(after))
            && after.code == wire::UNKNOWN_MEMBER_ID,
{
}

/// A described group: where its first row is at a known place, a pass exactly if
/// that row has no error and lists the member; where it has none, a failure.
pub proof fn law_descriptions_are_judged(
    groups: Seq<DescribedRow>,
    group: Seq<char>,
    member_id: Seq<char>,
    j: int,
)
    ensures
        (0 <= j < groups.len() && groups[j].group_id@ == group && forall|k: int|
            0 <= k < j ==> (#[trigger] groups[k]).group_id@ != group) ==> {
            let verdict = server_groups::spec_judge_described(groups, group, member_id);
            if groups[j].error.code == 0 && exists|m: int|
                0 <= m < groups[j].members@.len() && (#[trigger] groups[j].members@[m])@
                    == member_id {
                verdict == VerdictView::Pass
            } else {
                verdict is Fail
            }
        },
        (forall|k: int| 0 <= k < groups.len() ==> (#[trigger] groups[k]).group_id@ != group)
            ==> server_groups::spec_judge_described(groups, group, member_id) is Fail,
{
    let wanted = find::described_as(group);
    if 0 <= j < groups.len() && groups[j].group_id@ == group && (forall|k: int|
        0 <= k < j ==> (#[trigger] groups[k]).group_id@ != group) {
        verdicts::lemma_first_is(groups, wanted, j);
    }
    if forall|k: int| 0 <= k < groups.len() ==> (#[trigger] groups[k]).group_id@ != group {
        verdicts::lemma_first_is_none(groups, wanted);
    }
}

/// A pass of the description rests on the last answer: it has a row for the
/// group, without an error, that lists the member whose join was taken.
#[verifier::rlimit(60)]
#[verifier::spinoff_prover]
pub proof fn law_descriptions_pass(ctx: ServerCtx, tape: Seq<Event>, to: int)
    requires
        verdicts::passed(ServerCheck::DescribeGroupsReportsMembers, ctx, tape, to),
    ensures
        verdicts::answer_at(tape, to - 3) matches Some(Response::JoinGroup(joined))
            && joined.error.code == 0 && (verdicts::answer_at(tape, to - 1) matches Some(
            Response::DescribeGroups(rows),
        ) && exists|j: int, m: int|
            0 <= j < rows@.len() && 0 <= m < rows@[j].members@.len() && rows@[j].group_id@
                == ctx.spec_check_group("described"@) && rows@[j].error.code == 0 && (
            #[trigger] rows@[j].members@[m])@ == joined.leader@),
{
    match verdicts::answer_at(tape, to - 1) {
        Some(Response::DescribeGroups(rows)) => {
            let wanted = find::described_as(ctx.spec_check_group("described"@));
            calibration::lemma_first_where(rows@, wanted);
            match find::first_where(rows@, wanted) {
                Some(row) => {
                    let j = choose|j: int| 0 <= j < rows@.len() && rows@[j] == row;
                    match verdicts::answer_at(tape, to - 3) {
                        Some(Response::JoinGroup(joined)) => {
                            let m = choose|m: int|
                                0 <= m < row.members@.len() && (#[trigger] row.members@[m])@
                                    == joined.leader@;
                            assert(rows@[j].members@[m]@ == joined.leader@);
                        },
                        _ => {},
                    }
                },
                None => {},
            }
        },
        _ => {},
    }
}

/// A member that leads its group: its last join was taken without an error, at
/// the generation that is kept, and names the member as the leader.
pub proof fn law_leaders_join(
    tape: Seq<Event>,
    at: int,
    conn: usize,
    version: i16,
    group: Seq<char>,
    base: i32,
)
    ensures
        group_flows::spec_join_as_leader(tape, at, conn, version, group, base) matches Ok(
            ((member_id, generation), to),
        ) ==> {
            &&& to == at + 1 || to == at + 2
            &&& verdicts::answer_at(tape, to - 1) matches Some(Response::JoinGroup(joined))
                && joined.error.code == 0 && joined.leader@ == member_id && joined.generation_id
                == generation
            &&& verdicts::answer_at(tape, at) matches Some(Response::JoinGroup(opening))
                && opening.member_id@ == member_id && (to == at + 2 ==> opening.error.code == 79)
        },
{
}

/// A commit that went through: its answer has a row for the topic without an
/// error.
pub proof fn law_commits_are_taken(
    tape: Seq<Event>,
    at: int,
    conn: usize,
    version: i16,
    group: Seq<char>,
    topic: Seq<char>,
    topic_id: TopicId,
    offset: i64,
    correlation: i32,
)
    ensures
        group_flows::spec_commit_offset(
            tape,
            at,
            conn,
            version,
            group,
            topic,
            topic_id,
            offset,
            correlation,
        ) matches Ok((_, to)) ==> to == at + 1 && takes_at(tape, at, version, topic, topic_id),
{
    match verdicts::answer_at(tape, at) {
        Some(Response::OffsetCommit(topics)) => {
            let wanted = find::commit_for(version, topic, topic_id);
            calibration::lemma_first_where(topics@, wanted);
            match find::first_where(topics@, wanted) {
                Some(entry) => {
                    let j = choose|j: int| 0 <= j < topics@.len() && topics@[j] == entry;
                    assert(wanted(topics@[j]));
                },
                None => {},
            }
        },
        _ => {},
    }
}

/// Whether a place on the tape holds such an answer.
pub open spec fn takes_at(
    tape: Seq<Event>,
    i: int,
    version: i16,
    topic: Seq<char>,
    topic_id: TopicId,
) -> bool {
    verdicts::answer_at(tape, i) matches Some(Response::OffsetCommit(topics)) && exists|j: int|
        0 <= j < topics@.len() && (if version >= 10 {
            (#[trigger] topics@[j]).topic_id@ == topic_id@
        } else {
            topics@[j].name@ == topic
        }) && topics@[j].partitions@.len() > 0 && topics@[j].partitions@[0].code == 0
}

} // verus!

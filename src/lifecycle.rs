//! Laws of the project lifecycle, stated over the operations' specifications.
use vstd::prelude::*;

use crate::error::ColabioError;
use crate::instruction::{parse_instruction, parse_milestones, InstructionView};
use crate::project::{
    all_completed, contribute_spec, initialize_spec, milestone_wf, release_spec, status_step,
    validate_spec, vote_spec, cancel_spec, MilestoneView, ProjectStatus, ProjectView,
    ACTIVATION_QUORUM, VALIDATION_QUORUM,
};

verus! {

/// Whether every milestone of the list is fresh: incomplete, with no validations.
pub open spec fn all_fresh(ms: Seq<MilestoneView>) -> bool {
    forall|j: int| 0 <= j < ms.len() ==> !(#[trigger] ms[j]).completed && ms[j].validations == 0
}

proof fn lemma_parsed_milestones_fresh(b: Seq<u8>, at: int, count: nat)
    ensures
        parse_milestones(b, at, count) matches Some(ms) ==> ms.len() == count && all_fresh(ms),
    decreases count,
{
    if count > 0 {
        if let Some((m, next)) = crate::instruction::parse_milestone(b, at) {
            lemma_parsed_milestones_fresh(b, next, (count - 1) as nat);
            if let Some(rest) = parse_milestones(b, next, (count - 1) as nat) {
                let ms = seq![m] + rest;
                assert forall|j: int| 0 <= j < ms.len() implies !(#[trigger] ms[j]).completed
                    && ms[j].validations == 0 by {
                    if j > 0 {
                        assert(ms[j] == rest[j - 1]);
                    }
                }
            }
        }
    }
}

/// Initializing from any payload that decodes to an initialization gives a pending project
/// with nothing raised and no votes, ending `duration` after it starts, whose milestones are
/// the decoded ones, each incomplete with no validations.
pub proof fn lemma_initialize_fresh(payload: Seq<u8>, creator: Seq<u8>, now: u64)
    requires
        parse_instruction(payload) matches Ok(InstructionView::InitializeProject { duration, .. })
            && now + duration <= u64::MAX,
    ensures
        parse_instruction(payload) matches Ok(
            InstructionView::InitializeProject {
                title,
                description,
                goal_amount,
                duration,
                milestones,
            },
        ) ==> (initialize_spec(
            true,
            creator,
            title,
            description,
            goal_amount,
            duration,
            milestones,
            now,
        ) matches Ok(p) && p.status == ProjectStatus::Pending && p.raised_amount == 0
            && p.approve_votes == 0 && p.reject_votes == 0 && p.start_time == now
            && p.end_time == p.start_time + duration && p.milestones == milestones
            && all_fresh(p.milestones)),
{
    if payload.len() > 0 && payload[0] == 0 {
        if let Some((title, a1)) = crate::instruction::parse_string(payload, 1) {
            if let Some((description, a2)) = crate::instruction::parse_string(payload, a1) {
                if a2 + 17 <= payload.len() {
                    lemma_parsed_milestones_fresh(payload, a2 + 17, payload[a2 + 16] as nat);
                }
            }
        }
    }
}

/// A contribution to a project that is not active, or after its end time, is refused as
/// being in the wrong state, and so leaves what was raised as it was.
pub proof fn lemma_contribute_closed(p: ProjectView, now: u64, amount: u64)
    requires
        p.status != ProjectStatus::Active || now > p.end_time,
    ensures
        contribute_spec(p, true, now, amount) == Err::<ProjectView, ColabioError>(
            ColabioError::InvalidState,
        ),
{
}

/// One validation of milestone `i` of an active project adds exactly one to its count,
/// leaves the other milestones alone, never clears completion, and, where completion agreed
/// with the count before, sets it exactly on the call that brings the count to the quorum.
pub proof fn lemma_validate_step(p: ProjectView, i: u8)
    requires
        p.status == ProjectStatus::Active,
        i < p.milestones.len(),
        p.milestones[i as int].validations < u32::MAX,
    ensures
        validate_spec(p, true, i) matches Ok(q) && q.milestones.len() == p.milestones.len()
            && q.milestones[i as int].validations == p.milestones[i as int].validations + 1
            && (p.milestones[i as int].completed ==> q.milestones[i as int].completed) && (
        milestone_wf(p.milestones[i as int]) ==> milestone_wf(q.milestones[i as int]) && (
        q.milestones[i as int].completed != p.milestones[i as int].completed
            <==> p.milestones[i as int].validations + 1 == VALIDATION_QUORUM)) && (forall|j: int|
            0 <= j < p.milestones.len() && j != i ==> q.milestones[j] == p.milestones[j]),
{
}

/// The outcome of a run of votes, cast one after another.
pub open spec fn apply_votes(p: ProjectView, votes: Seq<bool>) -> Result<ProjectView, ColabioError>
    decreases votes.len(),
{
    if votes.len() == 0 {
        Ok(p)
    } else {
        match apply_votes(p, votes.drop_last()) {
            Ok(q) => vote_spec(q, true, votes.last()),
            Err(e) => Err(e),
        }
    }
}

/// The number of approvals in a run of votes.
pub open spec fn approvals(votes: Seq<bool>) -> nat
    decreases votes.len(),
{
    if votes.len() == 0 {
        0
    } else {
        approvals(votes.drop_last()) + if votes.last() {
            1nat
        } else {
            0nat
        }
    }
}

/// The number of rejections in a run of votes.
pub open spec fn rejections(votes: Seq<bool>) -> nat
    decreases votes.len(),
{
    if votes.len() == 0 {
        0
    } else {
        rejections(votes.drop_last()) + if votes.last() {
            0nat
        } else {
            1nat
        }
    }
}

proof fn lemma_votes_below_quorum(p: ProjectView, votes: Seq<bool>)
    requires
        p.status == ProjectStatus::Pending,
        p.approve_votes + approvals(votes) < ACTIVATION_QUORUM,
        p.reject_votes + rejections(votes) < ACTIVATION_QUORUM,
    ensures
        apply_votes(p, votes) matches Ok(q) && q.status == ProjectStatus::Pending
            && q.approve_votes == p.approve_votes + approvals(votes) && q.reject_votes
            == p.reject_votes + rejections(votes),
    decreases votes.len(),
{
    if votes.len() > 0 {
        lemma_votes_below_quorum(p, votes.drop_last());
    }
}

/// On a pending project, the run of votes whose last vote is the quorum-th approval, with
/// rejections still short of the quorum, leaves the project active.
pub proof fn lemma_votes_activate(p: ProjectView, votes: Seq<bool>)
    requires
        p.status == ProjectStatus::Pending,
        votes.len() > 0,
        votes.last(),
        p.approve_votes + approvals(votes) == ACTIVATION_QUORUM,
        p.reject_votes + rejections(votes) < ACTIVATION_QUORUM,
    ensures
        apply_votes(p, votes) matches Ok(q) && q.status == ProjectStatus::Active
            && q.approve_votes == ACTIVATION_QUORUM,
{
    lemma_votes_below_quorum(p, votes.drop_last());
}

/// On a pending project, the run of votes whose last vote is the quorum-th rejection, with
/// approvals still short of the quorum, leaves the project cancelled.
pub proof fn lemma_votes_reject(p: ProjectView, votes: Seq<bool>)
    requires
        p.status == ProjectStatus::Pending,
        votes.len() > 0,
        !votes.last(),
        p.approve_votes + approvals(votes) < ACTIVATION_QUORUM,
        p.reject_votes + rejections(votes) == ACTIVATION_QUORUM,
    ensures
        apply_votes(p, votes) matches Ok(q) && q.status == ProjectStatus::Cancelled
            && q.reject_votes == ACTIVATION_QUORUM,
{
    lemma_votes_below_quorum(p, votes.drop_last());
}

/// A vote on a project that is not pending is refused as being in the wrong state.
pub proof fn lemma_vote_closed(p: ProjectView, approve: bool)
    requires
        p.status != ProjectStatus::Pending,
    ensures
        vote_spec(p, true, approve) == Err::<ProjectView, ColabioError>(ColabioError::InvalidState),
{
}

/// The creator's release of milestone `i` of an active project fails while the milestone is
/// incomplete; once it is complete it hands out exactly the milestone's amount, and the
/// project is completed exactly when every milestone is.
pub proof fn lemma_release(p: ProjectView, caller: Seq<u8>, i: u8)
    requires
        p.creator == caller,
        p.status == ProjectStatus::Active,
        i < p.milestones.len(),
    ensures
        !p.milestones[i as int].completed ==> release_spec(p, true, caller, i) == Err::<
            (ProjectView, u64),
            ColabioError,
        >(ColabioError::MilestoneNotComplete),
        p.milestones[i as int].completed ==> (release_spec(p, true, caller, i) matches Ok(
            (q, amount),
        ) && amount == p.milestones[i as int].amount && q.milestones == p.milestones && (q.status
            == ProjectStatus::Completed <==> all_completed(p.milestones))),
{
}

/// Every operation that succeeds moves the status along the lifecycle graph, and only a
/// contribution changes what was raised.
pub proof fn lemma_status_monotone(
    p: ProjectView,
    signed: bool,
    caller: Seq<u8>,
    now: u64,
    amount: u64,
    i: u8,
    approve: bool,
)
    requires
        signed && p.status == ProjectStatus::Active && now <= p.end_time ==> p.raised_amount
            + amount <= u64::MAX,
    ensures
        contribute_spec(p, signed, now, amount) matches Ok(q) ==> status_step(p.status, q.status)
            && q.raised_amount == p.raised_amount + amount,
        validate_spec(p, signed, i) matches Ok(q) ==> status_step(p.status, q.status)
            && q.raised_amount == p.raised_amount,
        release_spec(p, signed, caller, i) matches Ok((q, _)) ==> status_step(p.status, q.status)
            && q.raised_amount == p.raised_amount,
        cancel_spec(p, signed, caller) matches Ok(q) ==> status_step(p.status, q.status)
            && q.raised_amount == p.raised_amount,
        vote_spec(p, signed, approve) matches Ok(q) ==> status_step(p.status, q.status)
            && q.raised_amount == p.raised_amount,
{
}

/// The project invariant: every milestone's completion agrees with its validation count, and
/// a pending project has not yet reached either voting quorum.
pub open spec fn project_wf(p: ProjectView) -> bool {
    &&& forall|j: int| 0 <= j < p.milestones.len() ==> milestone_wf(#[trigger] p.milestones[j])
    &&& p.status == ProjectStatus::Pending ==> p.approve_votes < ACTIVATION_QUORUM
        && p.reject_votes < ACTIVATION_QUORUM
}

/// A project initialized with fresh milestones satisfies the invariant.
pub proof fn lemma_initialize_wf(
    creator: Seq<u8>,
    title: Seq<char>,
    description: Seq<char>,
    goal_amount: u64,
    duration: u64,
    milestones: Seq<MilestoneView>,
    now: u64,
)
    requires
        all_fresh(milestones),
    ensures
        initialize_spec(true, creator, title, description, goal_amount, duration, milestones, now)
            matches Ok(p) ==> project_wf(p),
{
    assert forall|j: int| 0 <= j < milestones.len() implies milestone_wf(#[trigger] milestones[j]) by {
        assert(!milestones[j].completed && milestones[j].validations == 0);
    }
}

/// Every operation that succeeds on a project satisfying the invariant leaves one that
/// satisfies it.
pub proof fn lemma_wf_preserved(
    p: ProjectView,
    signed: bool,
    caller: Seq<u8>,
    now: u64,
    amount: u64,
    i: u8,
    approve: bool,
)
    requires
        project_wf(p),
        signed && p.status == ProjectStatus::Active && i < p.milestones.len()
            ==> p.milestones[i as int].validations < u32::MAX,
    ensures
        contribute_spec(p, signed, now, amount) matches Ok(q) ==> project_wf(q),
        validate_spec(p, signed, i) matches Ok(q) ==> project_wf(q),
        release_spec(p, signed, caller, i) matches Ok((q, _)) ==> project_wf(q),
        cancel_spec(p, signed, caller) matches Ok(q) ==> project_wf(q),
        vote_spec(p, signed, approve) matches Ok(q) ==> project_wf(q),
{
    if let Ok(q) = validate_spec(p, signed, i) {
        assert forall|j: int| 0 <= j < q.milestones.len() implies milestone_wf(
            #[trigger] q.milestones[j],
        ) by {
            if j != i {
                assert(q.milestones[j] == p.milestones[j]);
            }
        }
    }
}

/// A validation, whatever its outcome, never clears a completed milestone and never changes
/// a milestone's name, description or amount.
pub proof fn lemma_validate_keeps_completion(p: ProjectView, signed: bool, i: u8)
    ensures
        validate_spec(p, signed, i) matches Ok(q) ==> q.milestones.len() == p.milestones.len()
            && forall|j: int|
            0 <= j < p.milestones.len() ==> (p.milestones[j].completed
                ==> (#[trigger] q.milestones[j]).completed) && q.milestones[j].name
                == p.milestones[j].name && q.milestones[j].description
                == p.milestones[j].description && q.milestones[j].amount == p.milestones[j].amount,
{
}

/// No operation succeeds on a completed or cancelled project.
pub proof fn lemma_terminal(
    p: ProjectView,
    signed: bool,
    caller: Seq<u8>,
    now: u64,
    amount: u64,
    i: u8,
    approve: bool,
)
    requires
        p.status == ProjectStatus::Completed || p.status == ProjectStatus::Cancelled,
    ensures
        contribute_spec(p, signed, now, amount) is Err,
        validate_spec(p, signed, i) is Err,
        release_spec(p, signed, caller, i) is Err,
        cancel_spec(p, signed, caller) is Err,
        vote_spec(p, signed, approve) is Err,
{
}

} // verus!

//! Projects, milestones and the audit records, with the state machine that the six
//! instructions drive.
use vstd::prelude::*;

use crate::error::ColabioError;

verus! {

/// Validations a milestone needs before it counts as complete.
pub const VALIDATION_QUORUM: u32 = 3;

/// Votes of one kind that activate (approve) or cancel (reject) a pending project.
pub const ACTIVATION_QUORUM: u32 = 10;

/// A 32-byte account identity of the host ledger.
#[derive(Clone, Copy, Debug)]
pub struct Address {
    pub bytes: [u8; 32],
}

impl View for Address {
    type V = Seq<u8>;

    open spec fn view(&self) -> Seq<u8> {
        self.bytes@
    }
}

impl Address {
    /// Byte-wise comparison of two identities.
    pub fn same_as(&self, other: &Address) -> (r: bool)
        ensures
            r == (self@ == other@),
    {
        let mut i: usize = 0;
        while i < 32
            invariant
                0 <= i <= 32,
                self.bytes@.len() == 32,
                other.bytes@.len() == 32,
                forall|j: int| 0 <= j < i ==> self.bytes@[j] == other.bytes@[j],
            decreases 32 - i,
        {
            if self.bytes[i] != other.bytes[i] {
                assert(self@[i as int] != other@[i as int]);
                return false;
            }
            i = i + 1;
        }
        assert(self@ =~= other@);
        true
    }
}

/// One stage of a project: the value it releases and its validation progress.
#[derive(Debug)]
pub struct Milestone {
    pub name: String,
    pub description: String,
    pub amount: u64,
    pub completed: bool,
    pub validations: u32,
}

/// The mathematical value of a [`Milestone`].
pub struct MilestoneView {
    pub name: Seq<char>,
    pub description: Seq<char>,
    pub amount: u64,
    pub completed: bool,
    pub validations: u32,
}

impl View for Milestone {
    type V = MilestoneView;

    open spec fn view(&self) -> MilestoneView {
        MilestoneView {
            name: self.name@,
            description: self.description@,
            amount: self.amount,
            completed: self.completed,
            validations: self.validations,
        }
    }
}

/// The views of a list of milestones.
pub open spec fn milestones_view(ms: Seq<Milestone>) -> Seq<MilestoneView> {
    ms.map_values(|m: Milestone| m@)
}

/// Lifecycle of a project. Completed and Cancelled are terminal.
#[derive(Clone, Copy, Debug, PartialEq, Eq, Structural)]
pub enum ProjectStatus {
    Pending,
    Active,
    Completed,
    Cancelled,
}

/// Whether a milestone's completion flag agrees with its validation count.
pub open spec fn milestone_wf(m: MilestoneView) -> bool {
    m.completed == (m.validations >= VALIDATION_QUORUM)
}

/// Whether every milestone of the list is complete.
pub open spec fn all_completed(ms: Seq<MilestoneView>) -> bool {
    forall|j: int| 0 <= j < ms.len() ==> #[trigger] ms[j].completed
}

/// A funding campaign: its creator, goal, deadline, milestones and voting state.
#[derive(Debug)]
pub struct Project {
    pub creator: Address,
    pub title: String,
    pub description: String,
    pub goal_amount: u64,
    pub raised_amount: u64,
    pub start_time: u64,
    pub end_time: u64,
    pub milestones: Vec<Milestone>,
    pub status: ProjectStatus,
    pub approve_votes: u32,
    pub reject_votes: u32,
}

/// The mathematical value of a [`Project`].
pub struct ProjectView {
    pub creator: Seq<u8>,
    pub title: Seq<char>,
    pub description: Seq<char>,
    pub goal_amount: u64,
    pub raised_amount: u64,
    pub start_time: u64,
    pub end_time: u64,
    pub milestones: Seq<MilestoneView>,
    pub status: ProjectStatus,
    pub approve_votes: u32,
    pub reject_votes: u32,
}

impl View for Project {
    type V = ProjectView;

    open spec fn view(&self) -> ProjectView {
        ProjectView {
            creator: self.creator@,
            title: self.title@,
            description: self.description@,
            goal_amount: self.goal_amount,
            raised_amount: self.raised_amount,
            start_time: self.start_time,
            end_time: self.end_time,
            milestones: milestones_view(self.milestones@),
            status: self.status,
            approve_votes: self.approve_votes,
            reject_votes: self.reject_votes,
        }
    }
}

/// Audit record of one contribution.
#[derive(Clone, Copy, Debug)]
pub struct Contribution {
    pub contributor: Address,
    pub project: Address,
    pub amount: u64,
    pub timestamp: u64,
}

/// Audit record of one milestone validation.
#[derive(Clone, Copy, Debug)]
pub struct Validation {
    pub validator: Address,
    pub project: Address,
    pub milestone_index: u8,
    pub timestamp: u64,
}

/// Audit record of one vote.
#[derive(Clone, Copy, Debug)]
pub struct Vote {
    pub voter: Address,
    pub project: Address,
    pub approve: bool,
    pub timestamp: u64,
}

/// Whether the project can move from status `a` to status `b` in one operation.
pub open spec fn status_step(a: ProjectStatus, b: ProjectStatus) -> bool {
    a == b || (a == ProjectStatus::Pending && b != ProjectStatus::Completed) || (a
        == ProjectStatus::Active && (b == ProjectStatus::Completed || b
        == ProjectStatus::Cancelled))
}

/// The project that initialization creates.
pub open spec fn initialize_spec(
    signed: bool,
    creator: Seq<u8>,
    title: Seq<char>,
    description: Seq<char>,
    goal_amount: u64,
    duration: u64,
    milestones: Seq<MilestoneView>,
    now: u64,
) -> Result<ProjectView, ColabioError> {
    if !signed {
        Err(ColabioError::MissingSignature)
    } else {
        Ok(
            ProjectView {
                creator,
                title,
                description,
                goal_amount,
                raised_amount: 0,
                start_time: now,
                end_time: (now + duration) as u64,
                milestones,
                status: ProjectStatus::Pending,
                approve_votes: 0,
                reject_votes: 0,
            },
        )
    }
}

/// Who may operate on the project as its creator: a signer whose identity is the creator's.
pub open spec fn creator_check(p: ProjectView, signed: bool, caller: Seq<u8>) -> Result<
    (),
    ColabioError,
> {
    if !signed {
        Err(ColabioError::MissingSignature)
    } else if p.creator != caller {
        Err(ColabioError::NotOwner)
    } else {
        Ok(())
    }
}

/// The project after a contribution of `amount` at time `now`.
pub open spec fn contribute_spec(p: ProjectView, signed: bool, now: u64, amount: u64) -> Result<
    ProjectView,
    ColabioError,
> {
    if !signed {
        Err(ColabioError::MissingSignature)
    } else if p.status != ProjectStatus::Active || now > p.end_time {
        Err(ColabioError::InvalidState)
    } else {
        Ok(ProjectView { raised_amount: (p.raised_amount + amount) as u64, ..p })
    }
}

/// Milestone `m` after one more validation.
pub open spec fn validated(m: MilestoneView) -> MilestoneView {
    let v = (m.validations + 1) as u32;
    MilestoneView { validations: v, completed: m.completed || v >= VALIDATION_QUORUM, ..m }
}

/// The project after a validation of milestone `index`.
pub open spec fn validate_spec(p: ProjectView, signed: bool, index: u8) -> Result<
    ProjectView,
    ColabioError,
> {
    if !signed {
        Err(ColabioError::MissingSignature)
    } else if p.status != ProjectStatus::Active {
        Err(ColabioError::InvalidState)
    } else if index >= p.milestones.len() {
        Err(ColabioError::IndexOutOfRange)
    } else {
        Ok(
            ProjectView {
                milestones: p.milestones.update(index as int, validated(p.milestones[index as int])),
                ..p
            },
        )
    }
}

/// The project after releasing milestone `index`, and the value released to the creator.
pub open spec fn release_spec(p: ProjectView, signed: bool, caller: Seq<u8>, index: u8) -> Result<
    (ProjectView, u64),
    ColabioError,
> {
    if creator_check(p, signed, caller) is Err {
        Err(creator_check(p, signed, caller)->Err_0)
    } else if p.status != ProjectStatus::Active {
        Err(ColabioError::InvalidState)
    } else if index >= p.milestones.len() {
        Err(ColabioError::IndexOutOfRange)
    } else if !p.milestones[index as int].completed {
        Err(ColabioError::MilestoneNotComplete)
    } else if all_completed(p.milestones) {
        Ok((ProjectView { status: ProjectStatus::Completed, ..p }, p.milestones[index as int].amount))
    } else {
        Ok((p, p.milestones[index as int].amount))
    }
}

/// The project after its creator cancels it.
pub open spec fn cancel_spec(p: ProjectView, signed: bool, caller: Seq<u8>) -> Result<
    ProjectView,
    ColabioError,
> {
    if creator_check(p, signed, caller) is Err {
        Err(creator_check(p, signed, caller)->Err_0)
    } else if p.status != ProjectStatus::Pending && p.status != ProjectStatus::Active {
        Err(ColabioError::InvalidState)
    } else {
        Ok(ProjectView { status: ProjectStatus::Cancelled, ..p })
    }
}

/// The project after one vote.
pub open spec fn vote_spec(p: ProjectView, signed: bool, approve: bool) -> Result<
    ProjectView,
    ColabioError,
> {
    if !signed {
        Err(ColabioError::MissingSignature)
    } else if p.status != ProjectStatus::Pending {
        Err(ColabioError::InvalidState)
    } else {
        let a = if approve {
            (p.approve_votes + 1) as u32
        } else {
            p.approve_votes
        };
        let r = if approve {
            p.reject_votes
        } else {
            (p.reject_votes + 1) as u32
        };
        let status = if a >= ACTIVATION_QUORUM {
            ProjectStatus::Active
        } else if r >= ACTIVATION_QUORUM {
            ProjectStatus::Cancelled
        } else {
            ProjectStatus::Pending
        };
        Ok(ProjectView { approve_votes: a, reject_votes: r, status, ..p })
    }
}

impl Project {
    /// Creates a pending project with nothing raised, ending `duration` after `now`.
    pub fn initialize(
        signed: bool,
        creator: Address,
        title: String,
        description: String,
        goal_amount: u64,
        duration: u64,
        milestones: Vec<Milestone>,
        now: u64,
    ) -> (r: Result<Project, ColabioError>)
        requires
            signed ==> now + duration <= u64::MAX,
        ensures
            match initialize_spec(
                signed,
                creator@,
                title@,
                description@,
                goal_amount,
                duration,
                milestones_view(milestones@),
                now,
            ) {
                Ok(v) => r matches Ok(p) && p@ == v,
                Err(e) => r matches Err(f) && f == e,
            },
    {
        if !signed {
            return Err(ColabioError::MissingSignature);
        }
        Ok(Project {
            creator,
            title,
            description,
            goal_amount,
            raised_amount: 0,
            start_time: now,
            end_time: now + duration,
            milestones,
            status: ProjectStatus::Pending,
            approve_votes: 0,
            reject_votes: 0,
        })
    }

    /// The authorization of the creator-only operations.
    pub fn check_creator(&self, signed: bool, caller: &Address) -> (r: Result<(), ColabioError>)
        ensures
            r == creator_check(self@, signed, caller@),
    {
        if !signed {
            Err(ColabioError::MissingSignature)
        } else if !self.creator.same_as(caller) {
            Err(ColabioError::NotOwner)
        } else {
            Ok(())
        }
    }

    /// Adds `amount` to what was raised, while the project is active and open at `now`.
    pub fn contribute(
        &mut self,
        signed: bool,
        contributor: Address,
        project_address: Address,
        now: u64,
        amount: u64,
    ) -> (r: Result<Contribution, ColabioError>)
        requires
            signed && old(self).status == ProjectStatus::Active && now <= old(self).end_time
                ==> old(self).raised_amount + amount <= u64::MAX,
        ensures
            match contribute_spec(old(self)@, signed, now, amount) {
                Ok(v) => final(self)@ == v && r == Ok::<Contribution, ColabioError>(
                    (Contribution { contributor, project: project_address, amount, timestamp: now }),
                ),
                Err(e) => *final(self) == *old(self) && r == Err::<Contribution, ColabioError>(e),
            },
    {
        if !signed {
            return Err(ColabioError::MissingSignature);
        }
        if self.status != ProjectStatus::Active || now > self.end_time {
            return Err(ColabioError::InvalidState);
        }
        self.raised_amount = self.raised_amount + amount;
        Ok(Contribution { contributor, project: project_address, amount, timestamp: now })
    }

    /// Records one validation of milestone `milestone_index`.
    pub fn validate_milestone(
        &mut self,
        signed: bool,
        validator: Address,
        project_address: Address,
        milestone_index: u8,
        now: u64,
    ) -> (r: Result<Validation, ColabioError>)
        requires
            signed && old(self).status == ProjectStatus::Active && milestone_index < old(
                self,
            ).milestones@.len() ==> old(self).milestones@[milestone_index as int].validations
                < u32::MAX,
        ensures
            match validate_spec(old(self)@, signed, milestone_index) {
                Ok(v) => final(self)@ == v && r == Ok::<Validation, ColabioError>(
                    (Validation { validator, project: project_address, milestone_index, timestamp: now }),
                ),
                Err(e) => *final(self) == *old(self) && r == Err::<Validation, ColabioError>(e),
            },
    {
        if !signed {
            return Err(ColabioError::MissingSignature);
        }
        if self.status != ProjectStatus::Active {
            return Err(ColabioError::InvalidState);
        }
        let i = milestone_index as usize;
        if i >= self.milestones.len() {
            return Err(ColabioError::IndexOutOfRange);
        }
        let ghost before = milestones_view(self.milestones@);
        let m = &self.milestones[i];
        let validations = m.validations + 1;
        let updated = Milestone {
            name: m.name.clone(),
            description: m.description.clone(),
            amount: m.amount,
            completed: m.completed || validations >= VALIDATION_QUORUM,
            validations,
        };
        let ghost uv = updated@;
        self.milestones[i] = updated;
        assert(milestones_view(self.milestones@) =~= before.update(i as int, uv));
        Ok(Validation { validator, project: project_address, milestone_index, timestamp: now })
    }

    /// Whether every milestone is complete.
    pub fn all_milestones_completed(&self) -> (r: bool)
        ensures
            r == all_completed(self@.milestones),
    {
        let mut j: usize = 0;
        while j < self.milestones.len()
            invariant
                0 <= j <= self.milestones@.len(),
                forall|k: int| 0 <= k < j ==> #[trigger] self.milestones@[k].completed,
            decreases self.milestones@.len() - j,
        {
            if !self.milestones[j].completed {
                assert(!self@.milestones[j as int].completed);
                return false;
            }
            j = j + 1;
        }
        assert forall|k: int| 0 <= k < self@.milestones.len() implies #[trigger] self@.milestones[k].completed by {
            assert(self.milestones@[k].completed);
        }
        true
    }

    /// Releases completed milestone `milestone_index` to the creator; returns the value to
    /// transfer from the project's escrow.
    pub fn release_funds(&mut self, signed: bool, caller: &Address, milestone_index: u8) -> (r: Result<
        u64,
        ColabioError,
    >)
        ensures
            match release_spec(old(self)@, signed, caller@, milestone_index) {
                Ok((v, amount)) => final(self)@ == v && r == Ok::<u64, ColabioError>(amount),
                Err(e) => *final(self) == *old(self) && r == Err::<u64, ColabioError>(e),
            },
    {
        match self.check_creator(signed, caller) {
            Ok(()) => {},
            Err(e) => return Err(e),
        }
        if self.status != ProjectStatus::Active {
            return Err(ColabioError::InvalidState);
        }
        let i = milestone_index as usize;
        if i >= self.milestones.len() {
            return Err(ColabioError::IndexOutOfRange);
        }
        if !self.milestones[i].completed {
            return Err(ColabioError::MilestoneNotComplete);
        }
        let amount = self.milestones[i].amount;
        if self.all_milestones_completed() {
            self.status = ProjectStatus::Completed;
        }
        Ok(amount)
    }

    /// Cancels a pending or active project at its creator's request.
    pub fn cancel(&mut self, signed: bool, caller: &Address) -> (r: Result<(), ColabioError>)
        ensures
            match cancel_spec(old(self)@, signed, caller@) {
                Ok(v) => final(self)@ == v && r == Ok::<(), ColabioError>(()),
                Err(e) => *final(self) == *old(self) && r == Err::<(), ColabioError>(e),
            },
    {
        match self.check_creator(signed, caller) {
            Ok(()) => {},
            Err(e) => return Err(e),
        }
        if self.status != ProjectStatus::Pending && self.status != ProjectStatus::Active {
            return Err(ColabioError::InvalidState);
        }
        self.status = ProjectStatus::Cancelled;
        Ok(())
    }

    /// Counts one vote on a pending project; a quorum of approvals activates it, a quorum of
    /// rejections cancels it.
    pub fn vote(
        &mut self,
        signed: bool,
        voter: Address,
        project_address: Address,
        approve: bool,
        now: u64,
    ) -> (r: Result<Vote, ColabioError>)
        requires
            signed && old(self).status == ProjectStatus::Pending && approve ==> old(
                self,
            ).approve_votes < u32::MAX,
            signed && old(self).status == ProjectStatus::Pending && !approve ==> old(
                self,
            ).reject_votes < u32::MAX,
        ensures
            match vote_spec(old(self)@, signed, approve) {
                Ok(v) => final(self)@ == v && r == Ok::<Vote, ColabioError>(
                    (Vote { voter, project: project_address, approve, timestamp: now }),
                ),
                Err(e) => *final(self) == *old(self) && r == Err::<Vote, ColabioError>(e),
            },
    {
        if !signed {
            return Err(ColabioError::MissingSignature);
        }
        if self.status != ProjectStatus::Pending {
            return Err(ColabioError::InvalidState);
        }
        if approve {
            self.approve_votes = self.approve_votes + 1;
        } else {
            self.reject_votes = self.reject_votes + 1;
        }
        if self.approve_votes >= ACTIVATION_QUORUM {
            self.status = ProjectStatus::Active;
        } else if self.reject_votes >= ACTIVATION_QUORUM {
            self.status = ProjectStatus::Cancelled;
        }
        Ok(Vote { voter, project: project_address, approve, timestamp: now })
    }
}

} // verus!

//! Task state machine: `next(current, transition)` computes a task's new
//! status, or refuses an illegal transition.

use vstd::prelude::*;

verus! {

#[derive(Debug, Clone, Copy, PartialEq, Eq, Structural)]
pub enum TaskStatus {
    Proposed,
    Queued,
    InProgress,
    AwaitingReview,
    ChangesRequested,
    Done,
    Failed,
    Escalated,
}

#[derive(Debug, Clone, Copy, PartialEq, Eq, Structural)]
pub enum Actor {
    Manager,
    NonManager,
    Operator,
    System,
}

/// Every legal request that can change a task's status.
#[derive(Debug)]
pub enum Transition {
    /// A new subtask: queued when created by a manager, operator or the
    /// system, proposed otherwise.
    SubtaskCreate { caller: Actor },
    /// Proposed -> Queued.
    AcceptProposal { caller: Actor },
    /// Proposed -> Failed.
    RejectProposal { caller: Actor },
    /// Queued -> InProgress.
    AssignFromQueued,
    /// InProgress | ChangesRequested -> AwaitingReview.
    TaskDoneMcp,
    /// AwaitingReview -> ChangesRequested.
    RequestChanges,
    /// AwaitingReview -> Done.
    TaskAccept,
    /// AwaitingReview -> Done, by the operator.
    OperatorForceAccept,
    /// Any non-terminal status -> Failed, by the operator.
    OperatorForceFail,
    /// Any non-terminal status -> Failed.
    Fail,
    /// Any non-terminal status -> Escalated.
    Escalate,
}

/// `Done`, `Failed` and `Escalated` end a task's life: nothing but a fresh
/// subtask creation moves away from them.
pub open spec fn is_terminal(s: TaskStatus) -> bool {
    s == TaskStatus::Done || s == TaskStatus::Failed || s == TaskStatus::Escalated
}

/// The transition table.
pub open spec fn next_spec(current: TaskStatus, t: Transition) -> Option<TaskStatus> {
    match t {
        Transition::SubtaskCreate { caller } => match caller {
            Actor::NonManager => Some(TaskStatus::Proposed),
            _ => Some(TaskStatus::Queued),
        },
        Transition::AcceptProposal { .. } => if current == TaskStatus::Proposed {
            Some(TaskStatus::Queued)
        } else {
            None
        },
        Transition::RejectProposal { .. } => if current == TaskStatus::Proposed {
            Some(TaskStatus::Failed)
        } else {
            None
        },
        Transition::AssignFromQueued => if current == TaskStatus::Queued {
            Some(TaskStatus::InProgress)
        } else {
            None
        },
        Transition::TaskDoneMcp => if current == TaskStatus::InProgress || current
            == TaskStatus::ChangesRequested {
            Some(TaskStatus::AwaitingReview)
        } else {
            None
        },
        Transition::RequestChanges => if current == TaskStatus::AwaitingReview {
            Some(TaskStatus::ChangesRequested)
        } else {
            None
        },
        Transition::TaskAccept => if current == TaskStatus::AwaitingReview {
            Some(TaskStatus::Done)
        } else {
            None
        },
        Transition::OperatorForceAccept => if current == TaskStatus::AwaitingReview {
            Some(TaskStatus::Done)
        } else {
            None
        },
        Transition::OperatorForceFail => if !is_terminal(current) {
            Some(TaskStatus::Failed)
        } else {
            None
        },
        Transition::Fail => if !is_terminal(current) {
            Some(TaskStatus::Failed)
        } else {
            None
        },
        Transition::Escalate => if !is_terminal(current) {
            Some(TaskStatus::Escalated)
        } else {
            None
        },
    }
}

/// The refusal reason recorded in the audit trail.
pub const ILLEGAL_TRANSITION: &'static str = "illegal transition";

/// Compute the next status for a task given its current status and a
/// transition request.
pub fn next(current: TaskStatus, t: &Transition) -> (r: Result<TaskStatus, &'static str>)
    ensures
        match next_spec(current, *t) {
            Some(s) => r == Ok::<TaskStatus, &'static str>(s),
            None => r is Err && r->Err_0@ == ILLEGAL_TRANSITION@,
        },
{
    let terminal = match current {
        TaskStatus::Done | TaskStatus::Failed | TaskStatus::Escalated => true,
        _ => false,
    };
    match t {
        Transition::SubtaskCreate { caller } => match caller {
            Actor::NonManager => Ok(TaskStatus::Proposed),
            _ => Ok(TaskStatus::Queued),
        },
        Transition::AcceptProposal { .. } => match current {
            TaskStatus::Proposed => Ok(TaskStatus::Queued),
            _ => Err(ILLEGAL_TRANSITION),
        },
        Transition::RejectProposal { .. } => match current {
            TaskStatus::Proposed => Ok(TaskStatus::Failed),
            _ => Err(ILLEGAL_TRANSITION),
        },
        Transition::AssignFromQueued => match current {
            TaskStatus::Queued => Ok(TaskStatus::InProgress),
            _ => Err(ILLEGAL_TRANSITION),
        },
        Transition::TaskDoneMcp => match current {
            TaskStatus::InProgress | TaskStatus::ChangesRequested => Ok(
                TaskStatus::AwaitingReview,
            ),
            _ => Err(ILLEGAL_TRANSITION),
        },
        Transition::RequestChanges => match current {
            TaskStatus::AwaitingReview => Ok(TaskStatus::ChangesRequested),
            _ => Err(ILLEGAL_TRANSITION),
        },
        Transition::TaskAccept | Transition::OperatorForceAccept => match current {
            TaskStatus::AwaitingReview => Ok(TaskStatus::Done),
            _ => Err(ILLEGAL_TRANSITION),
        },
        Transition::OperatorForceFail | Transition::Fail => if terminal {
            Err(ILLEGAL_TRANSITION)
        } else {
            Ok(TaskStatus::Failed)
        },
        Transition::Escalate => if terminal {
            Err(ILLEGAL_TRANSITION)
        } else {
            Ok(TaskStatus::Escalated)
        },
    }
}


/// Nothing but a subtask creation (which does not look at the current
/// status) moves a task out of `Done`, `Failed` or `Escalated`.
pub proof fn law_terminal_absorbing(s: TaskStatus, t: Transition)
    requires
        is_terminal(s),
        !(t is SubtaskCreate),
    ensures
        next_spec(s, t) is None,
{
}

/// A task that is not finished can always be failed or escalated.
pub proof fn law_fail_or_escalate_from_live(s: TaskStatus)
    requires
        !is_terminal(s),
    ensures
        next_spec(s, Transition::Fail) == Some(TaskStatus::Failed),
        next_spec(s, Transition::OperatorForceFail) == Some(TaskStatus::Failed),
        next_spec(s, Transition::Escalate) == Some(TaskStatus::Escalated),
{
}

/// The review loop: work submitted for review can be sent back for
/// changes, and resubmitted for review again; only a task under review can
/// be accepted.
pub proof fn law_review_loop(s: TaskStatus)
    ensures
        next_spec(TaskStatus::InProgress, Transition::TaskDoneMcp) == Some(TaskStatus::AwaitingReview),
        next_spec(TaskStatus::AwaitingReview, Transition::RequestChanges) == Some(
            TaskStatus::ChangesRequested,
        ),
        next_spec(TaskStatus::ChangesRequested, Transition::TaskDoneMcp) == Some(
            TaskStatus::AwaitingReview,
        ),
        next_spec(s, Transition::TaskAccept) is Some <==> s == TaskStatus::AwaitingReview,
        next_spec(s, Transition::TaskAccept) is Some ==> next_spec(s, Transition::TaskAccept) == Some(
            TaskStatus::Done,
        ),
{
}

/// A subtask starts queued when a manager, the operator or the system
/// creates it, and proposed when anyone else does, whatever the status
/// passed in.
pub proof fn law_subtask_initial_status(s1: TaskStatus, s2: TaskStatus, a: Actor)
    ensures
        next_spec(s1, Transition::SubtaskCreate { caller: a }) == next_spec(
            s2,
            Transition::SubtaskCreate { caller: a },
        ),
        next_spec(s1, Transition::SubtaskCreate { caller: a }) == Some(
            if a == Actor::NonManager { TaskStatus::Proposed } else { TaskStatus::Queued },
        ),
{
}

/// Acceptance, by the manager or forced by the operator, applies only to a
/// task under review, and closes it as done.
pub proof fn law_accept_only_under_review(s: TaskStatus)
    ensures
        next_spec(s, Transition::OperatorForceAccept) is Some <==> s == TaskStatus::AwaitingReview,
        next_spec(s, Transition::TaskAccept) is Some <==> s == TaskStatus::AwaitingReview,
        next_spec(s, Transition::OperatorForceAccept) is Some ==> next_spec(s, Transition::OperatorForceAccept)
            == Some(TaskStatus::Done),
{
}

/// Each step of a task's life applies only where it belongs: proposals are
/// accepted (to queued) or rejected (to failed) only while proposed; only a
/// queued task is assigned (to in progress); work is handed in (to
/// awaiting review) only while in progress or sent back for changes; and
/// changes are requested (to changes requested) only while under review.
pub proof fn law_steps_apply_where_they_belong(s: TaskStatus, a: Actor)
    ensures
        next_spec(s, Transition::AcceptProposal { caller: a }) is Some <==> s == TaskStatus::Proposed,
        next_spec(s, Transition::AcceptProposal { caller: a }) is Some ==> next_spec(
            s,
            Transition::AcceptProposal { caller: a },
        ) == Some(TaskStatus::Queued),
        next_spec(s, Transition::RejectProposal { caller: a }) is Some <==> s == TaskStatus::Proposed,
        next_spec(s, Transition::RejectProposal { caller: a }) is Some ==> next_spec(
            s,
            Transition::RejectProposal { caller: a },
        ) == Some(TaskStatus::Failed),
        next_spec(s, Transition::AssignFromQueued) is Some <==> s == TaskStatus::Queued,
        next_spec(s, Transition::AssignFromQueued) is Some ==> next_spec(s, Transition::AssignFromQueued)
            == Some(TaskStatus::InProgress),
        next_spec(s, Transition::TaskDoneMcp) is Some <==> (s == TaskStatus::InProgress || s
            == TaskStatus::ChangesRequested),
        next_spec(s, Transition::TaskDoneMcp) is Some ==> next_spec(s, Transition::TaskDoneMcp) == Some(
            TaskStatus::AwaitingReview,
        ),
        next_spec(s, Transition::RequestChanges) is Some <==> s == TaskStatus::AwaitingReview,
        next_spec(s, Transition::RequestChanges) is Some ==> next_spec(s, Transition::RequestChanges) == Some(
            TaskStatus::ChangesRequested,
        ),
{
}

/// Failing and escalating apply exactly to the tasks still alive (neither
/// done, failed nor escalated), and lead to failed and escalated.
pub proof fn law_fail_and_escalate_domain(s: TaskStatus)
    ensures
        next_spec(s, Transition::Fail) is Some <==> !(s == TaskStatus::Done || s == TaskStatus::Failed || s
            == TaskStatus::Escalated),
        next_spec(s, Transition::OperatorForceFail) is Some <==> !(s == TaskStatus::Done || s
            == TaskStatus::Failed || s == TaskStatus::Escalated),
        next_spec(s, Transition::Escalate) is Some <==> !(s == TaskStatus::Done || s == TaskStatus::Failed
            || s == TaskStatus::Escalated),
        next_spec(s, Transition::Fail) is Some ==> next_spec(s, Transition::Fail) == Some(TaskStatus::Failed),
        next_spec(s, Transition::OperatorForceFail) is Some ==> next_spec(s, Transition::OperatorForceFail)
            == Some(TaskStatus::Failed),
        next_spec(s, Transition::Escalate) is Some ==> next_spec(s, Transition::Escalate) == Some(
            TaskStatus::Escalated,
        ),
{
}

} // verus!

use cliptown_world::task_sm::{next, Actor, TaskStatus, Transition, ILLEGAL_TRANSITION};
use cliptown_world::mcp_dispatch::{parse_status, status_to_str};

#[test]
fn subtask_create_depends_on_caller() {
    assert_eq!(next(TaskStatus::Done, &Transition::SubtaskCreate { caller: Actor::Manager }), Ok(TaskStatus::Queued));
    assert_eq!(next(TaskStatus::Done, &Transition::SubtaskCreate { caller: Actor::Operator }), Ok(TaskStatus::Queued));
    assert_eq!(next(TaskStatus::Queued, &Transition::SubtaskCreate { caller: Actor::System }), Ok(TaskStatus::Queued));
    assert_eq!(next(TaskStatus::Queued, &Transition::SubtaskCreate { caller: Actor::NonManager }), Ok(TaskStatus::Proposed));
}

#[test]
fn review_loop() {
    let s = next(TaskStatus::InProgress, &Transition::TaskDoneMcp).unwrap();
    assert_eq!(s, TaskStatus::AwaitingReview);
    let s = next(s, &Transition::RequestChanges).unwrap();
    assert_eq!(s, TaskStatus::ChangesRequested);
    let s = next(s, &Transition::TaskDoneMcp).unwrap();
    assert_eq!(s, TaskStatus::AwaitingReview);
    assert_eq!(next(s, &Transition::TaskAccept), Ok(TaskStatus::Done));
    assert_eq!(next(s, &Transition::OperatorForceAccept), Ok(TaskStatus::Done));
}

#[test]
fn terminal_statuses_absorb() {
    for s in [TaskStatus::Done, TaskStatus::Failed, TaskStatus::Escalated] {
        assert_eq!(next(s, &Transition::Fail), Err(ILLEGAL_TRANSITION));
        assert_eq!(next(s, &Transition::Escalate), Err(ILLEGAL_TRANSITION));
        assert_eq!(next(s, &Transition::OperatorForceFail), Err(ILLEGAL_TRANSITION));
        assert_eq!(next(s, &Transition::TaskAccept), Err(ILLEGAL_TRANSITION));
    }
}

#[test]
fn live_statuses_can_fail_or_escalate() {
    for s in [TaskStatus::Proposed, TaskStatus::Queued, TaskStatus::InProgress, TaskStatus::AwaitingReview, TaskStatus::ChangesRequested] {
        assert_eq!(next(s, &Transition::Fail), Ok(TaskStatus::Failed));
        assert_eq!(next(s, &Transition::Escalate), Ok(TaskStatus::Escalated));
    }
}

#[test]
fn proposals_and_assignment() {
    assert_eq!(next(TaskStatus::Proposed, &Transition::AcceptProposal { caller: Actor::Manager }), Ok(TaskStatus::Queued));
    assert_eq!(next(TaskStatus::Proposed, &Transition::RejectProposal { caller: Actor::Manager }), Ok(TaskStatus::Failed));
    assert_eq!(next(TaskStatus::Queued, &Transition::AcceptProposal { caller: Actor::Manager }), Err(ILLEGAL_TRANSITION));
    assert_eq!(next(TaskStatus::Queued, &Transition::AssignFromQueued), Ok(TaskStatus::InProgress));
    assert_eq!(next(TaskStatus::Proposed, &Transition::AssignFromQueued), Err(ILLEGAL_TRANSITION));
    assert_eq!(next(TaskStatus::Queued, &Transition::TaskDoneMcp), Err(ILLEGAL_TRANSITION));
}

#[test]
fn status_names_round_trip() {
    for s in [TaskStatus::Proposed, TaskStatus::Queued, TaskStatus::InProgress, TaskStatus::AwaitingReview, TaskStatus::ChangesRequested, TaskStatus::Done, TaskStatus::Failed, TaskStatus::Escalated] {
        assert_eq!(parse_status(status_to_str(s)), Some(s));
    }
    assert_eq!(status_to_str(TaskStatus::AwaitingReview), "awaiting_review");
    assert_eq!(parse_status("cancelled"), None);
}

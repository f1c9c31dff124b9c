use cliptown_world::health::Health;
use cliptown_world::mcp_dispatch::{
    assignee_gate, chat_recipients, change_request_gate, check_artifact_path, check_body_length, check_not_self_blocking,
    directive_gate, is_public_room, manager_or_assignee_gate, move_refusal, parse_observe_query, parse_tool,
    parse_verify_method, peers_in_room, require_some_change, review_actor, review_outcome, revision_limit,
    same_startup_gate, speak_kind, subtask_plan, transition, unknown_tool_error, McpTool, ObserveQuery, ReviewOutcome,
    manager_source, is_recorded_manager, named_assignee_gate, move_target, ManagerSource,
    SpeakKind, TaskRow, VerifyMethod, MAX_BODY_LENGTH, MAX_REVIEW_ROUNDS,
    change_request_decision, tool_catalog, tool_name_str, ChangeRequest,
};
use cliptown_world::move_sys::StartMoveResult;
use cliptown_world::seed::TownLayout;
use cliptown_world::state::{AvatarView, WorldView};
use cliptown_world::task_sm::{TaskStatus, Transition};

fn avatar(id: &str, startup: &str, room: &str) -> AvatarView {
    AvatarView {
        agent_id: id.to_string(),
        startup_id: startup.to_string(),
        role: "engineer".to_string(),
        backend: "codex".to_string(),
        current_pos: (0, 0),
        target_pos: None,
        room_id: room.to_string(),
        status: "idle".to_string(),
        last_seen_at: None,
        health: Health::Online,
    }
}

fn task(startup: &str, assignee: Option<&str>, status: TaskStatus) -> TaskRow {
    TaskRow {
        status,
        startup_id: startup.to_string(),
        parent_id: None,
        assignee_agent_id: assignee.map(|s| s.to_string()),
        review_round: 0,
        artifact_path: None,
    }
}

#[test]
fn body_length_limit() {
    assert!(check_body_length("body", &"x".repeat(MAX_BODY_LENGTH)).is_ok());
    // Characters count, not bytes.
    assert!(check_body_length("body", &"é".repeat(MAX_BODY_LENGTH)).is_ok());
    let e = check_body_length("feedback", &"x".repeat(MAX_BODY_LENGTH + 1)).unwrap_err();
    assert_eq!(e.0, "body_too_long");
    assert_eq!(e.1, "feedback exceeds 4096 chars (got 4097)");
}

#[test]
fn tools_by_name() {
    assert_eq!(parse_tool("move_intent"), Some(McpTool::MoveIntent));
    assert_eq!(parse_tool("task_set_blocking"), Some(McpTool::TaskSetBlocking));
    assert_eq!(parse_tool("hypothesis_resolve"), Some(McpTool::HypothesisResolve));
    assert_eq!(parse_tool("fly"), None);
    let e = unknown_tool_error("fly");
    assert_eq!(e, ("unknown_tool".to_string(), "no handler for tool: fly".to_string()));
}

#[test]
fn public_rooms_and_chat_fanout() {
    assert!(is_public_room("lobby") && is_public_room("cafe") && is_public_room("library"));
    assert!(!is_public_room("suite_1"));
    let mut w = WorldView::new();
    w.upsert_avatar(avatar("A1", "S1", "lobby"));
    w.upsert_avatar(avatar("A2", "S2", "lobby"));
    w.upsert_avatar(avatar("A3", "S1", "suite_1"));
    w.upsert_avatar(avatar("A4", "S2", "suite_1"));
    w.upsert_avatar(avatar("A5", "S1", "suite_1"));
    let speaker = avatar("A1", "S1", "lobby");
    assert_eq!(chat_recipients(&w, &speaker), vec!["A2".to_string()]);
    let speaker = avatar("A3", "S1", "suite_1");
    assert_eq!(chat_recipients(&w, &speaker), vec!["A5".to_string()]);
}

#[test]
fn gates() {
    let caller = avatar("A1", "S1", "lobby");
    let t = task("S2", Some("A1"), TaskStatus::InProgress);
    assert_eq!(same_startup_gate(&t, &caller).unwrap_err().0, "cross_startup");
    assert_eq!(assignee_gate(&t, &caller, "x").unwrap_err().1, "task belongs to another startup");
    let t = task("S1", Some("A2"), TaskStatus::InProgress);
    assert_eq!(
        assignee_gate(&t, &caller, "task_done requires assignee").unwrap_err(),
        ("no_permission".to_string(), "task_done requires assignee".to_string())
    );
    let t = task("S1", Some("A1"), TaskStatus::InProgress);
    assert!(assignee_gate(&t, &caller, "x").is_ok());
    assert!(manager_or_assignee_gate(&t, &caller, false, "d").is_ok());
    let t2 = task("S1", None, TaskStatus::InProgress);
    assert!(manager_or_assignee_gate(&t2, &caller, true, "d").is_ok());
    assert_eq!(manager_or_assignee_gate(&t2, &caller, false, "d").unwrap_err().1, "d");
}

#[test]
fn transitions_and_artifacts() {
    assert_eq!(transition(TaskStatus::InProgress, &Transition::TaskDoneMcp), Ok(TaskStatus::AwaitingReview));
    assert_eq!(
        transition(TaskStatus::Done, &Transition::Fail).unwrap_err(),
        ("illegal_transition".to_string(), "illegal transition".to_string())
    );
    assert!(check_artifact_path("S1", "T1", "workspaces/S1/artifacts/T1.md").is_ok());
    assert_eq!(
        check_artifact_path("S1", "T1", "../x").unwrap_err(),
        ("bad_artifact_path".to_string(), "expected workspaces/S1/artifacts/T1.md, got ../x".to_string())
    );
}

#[test]
fn review_rounds_escalate() {
    assert_eq!(review_outcome(TaskStatus::AwaitingReview, 0), Ok(ReviewOutcome::ChangesRequested(TaskStatus::ChangesRequested)));
    assert_eq!(review_outcome(TaskStatus::AwaitingReview, MAX_REVIEW_ROUNDS - 1), Ok(ReviewOutcome::ChangesRequested(TaskStatus::ChangesRequested)));
    assert_eq!(review_outcome(TaskStatus::AwaitingReview, MAX_REVIEW_ROUNDS), Ok(ReviewOutcome::Escalated(TaskStatus::Escalated)));
    assert!(review_outcome(TaskStatus::Done, MAX_REVIEW_ROUNDS).is_err());
    assert!(review_outcome(TaskStatus::InProgress, 0).is_err());
}

#[test]
fn change_request_roles() {
    assert_eq!(review_actor(true, false, false, false), Some("manager"));
    assert_eq!(review_actor(false, true, false, true), Some("peer"));
    assert_eq!(review_actor(false, true, true, true), None);
    let caller = avatar("R", "S1", "lobby");
    let t = task("S1", Some("A1"), TaskStatus::AwaitingReview);
    assert_eq!(change_request_gate(&t, &caller, false, true), Ok("peer"));
    assert_eq!(change_request_gate(&t, &caller, true, false), Ok("manager"));
    assert_eq!(change_request_gate(&t, &caller, false, false).unwrap_err().0, "no_permission");
    let own = task("S1", Some("R"), TaskStatus::AwaitingReview);
    assert_eq!(change_request_gate(&own, &caller, false, true).unwrap_err().0, "no_permission");
    let none = task("S1", None, TaskStatus::AwaitingReview);
    assert_eq!(change_request_gate(&none, &caller, true, false).unwrap_err(), ("no_assignee".to_string(), "task has no assignee".to_string()));
}

#[test]
fn subtasks() {
    assert_eq!(subtask_plan(true, Some("A9".into())), (TaskStatus::Queued, Some("A9".to_string())));
    assert_eq!(subtask_plan(false, Some("A9".into())), (TaskStatus::Proposed, None));
}

#[test]
fn speak_rules() {
    assert_eq!(speak_kind(None, None), Ok(SpeakKind::Chat));
    assert_eq!(speak_kind(Some("chat"), None), Ok(SpeakKind::Chat));
    assert_eq!(speak_kind(Some("directive"), Some("A2")), Ok(SpeakKind::Directive));
    assert_eq!(speak_kind(Some("directive"), None).unwrap_err().1, "directive requires to_agent_id");
    assert_eq!(speak_kind(Some("shout"), None).unwrap_err(), ("bad_args".to_string(), "unknown speak kind: shout".to_string()));
    let caller = avatar("M", "S1", "lobby");
    assert!(directive_gate("S1", Some("M"), &caller).is_ok());
    assert_eq!(directive_gate("S2", Some("M"), &caller).unwrap_err().0, "cross_startup");
    assert_eq!(directive_gate("S1", Some("X"), &caller).unwrap_err().1, "directive requires manager-of-recipient");
    assert_eq!(directive_gate("S1", None, &caller).unwrap_err().0, "no_permission");
}

#[test]
fn setter_arguments() {
    let a: Option<Option<String>> = None;
    let b: Option<Option<i64>> = Some(None);
    assert!(require_some_change(&a, &b, "m").is_ok());
    let c: Option<Option<i64>> = None;
    assert_eq!(require_some_change(&a, &c, "at least one").unwrap_err(), ("bad_args".to_string(), "at least one".to_string()));
    assert_eq!(check_not_self_blocking("T1", &Some(Some("T1".into()))).unwrap_err().0, "self_blocking");
    assert!(check_not_self_blocking("T1", &Some(Some("T2".into()))).is_ok());
    assert!(check_not_self_blocking("T1", &Some(None)).is_ok());
    assert_eq!(revision_limit(None), 20);
    assert_eq!(revision_limit(Some(7)), 7);
    assert_eq!(revision_limit(Some(1000)), 100);
}

#[test]
fn verify_and_observe() {
    assert_eq!(parse_verify_method("read_assert"), Ok(VerifyMethod::ReadAssert));
    assert_eq!(parse_verify_method("lint_json"), Ok(VerifyMethod::LintJson));
    assert_eq!(parse_verify_method("lint_typescript"), Ok(VerifyMethod::Deferred));
    assert_eq!(parse_verify_method("guess").unwrap_err().1, "unknown verify method: guess");
    assert_eq!(parse_observe_query("my_position"), Ok(ObserveQuery::MyPosition));
    assert_eq!(parse_observe_query("weather").unwrap_err().1, "unknown query: weather");
    let mut w = WorldView::new();
    w.upsert_avatar(avatar("A1", "S1", "lobby"));
    w.upsert_avatar(avatar("A2", "S1", "lobby"));
    w.upsert_avatar(avatar("A3", "S2", "lobby"));
    let peers = peers_in_room(&w, &avatar("A1", "S1", "lobby"));
    assert_eq!(peers, vec![("A2".to_string(), "engineer".to_string())]);
}

#[test]
fn move_refusals_map_to_errors() {
    assert_eq!(move_refusal(StartMoveResult::Accepted), None);
    assert_eq!(move_refusal(StartMoveResult::NoPath), Some(("no_path", "no path to target")));
    assert_eq!(move_refusal(StartMoveResult::PermissionDenied), Some(("no_permission", "cannot enter target room")));
    assert_eq!(move_refusal(StartMoveResult::NoSuchAgent), Some(("unknown_agent", "agent not found")));
}

#[test]
fn managers_are_structural() {
    let mut t = task("S1", Some("E"), TaskStatus::Queued);
    assert_eq!(manager_source(&t), ManagerSource::AssigneeManager("E".into()));
    t.parent_id = Some("P".into());
    assert_eq!(manager_source(&t), ManagerSource::ParentAssignee("P".into()));
    let orphan = task("S1", None, TaskStatus::Proposed);
    assert_eq!(manager_source(&orphan), ManagerSource::NoManager);
    let f = avatar("F", "S1", "lobby");
    assert!(is_recorded_manager(Some("F"), &f));
    assert!(!is_recorded_manager(Some("G"), &f));
    assert!(!is_recorded_manager(None, &f));
}

#[test]
fn named_assignees_must_be_colleagues() {
    let f = avatar("F", "S1", "lobby");
    assert_eq!(named_assignee_gate(None, &f), Err(("unknown_assignee".to_string(), "no such agent".to_string())));
    assert_eq!(
        named_assignee_gate(Some("S2"), &f),
        Err(("cross_startup".to_string(), "assignee in different startup".to_string()))
    );
    assert_eq!(named_assignee_gate(Some("S1"), &f), Ok(()));
}

#[test]
fn move_targets() {
    let layout = TownLayout::default_town();
    let f = avatar("F", "S1", "cafe");
    assert_eq!(move_target(&layout, &f, Some("lobby"), Some((3, 4))), Ok(("lobby".to_string(), 3, 4)));
    let lobby = layout.room("lobby").unwrap().bounds;
    assert_eq!(
        move_target(&layout, &f, Some("lobby"), None),
        Ok(("lobby".to_string(), lobby.0 + lobby.2 / 2, lobby.1 + lobby.3 / 2))
    );
    assert_eq!(
        move_target(&layout, &f, Some("attic"), None),
        Err(("bad_args".to_string(), "unknown room: attic".to_string()))
    );
    assert_eq!(move_target(&layout, &f, None, Some((1, 2))), Ok(("cafe".to_string(), 1, 2)));
    assert_eq!(
        move_target(&layout, &f, None, None),
        Err(("bad_args".to_string(), "must provide target_room or target_tile".to_string()))
    );
}

#[test]
fn change_request_sends_work_back_for_another_round() {
    let mut t = task("s1", Some("dev"), TaskStatus::AwaitingReview);
    t.review_round = 1;
    let mgr = avatar("boss", "s1", "office");
    match change_request_decision(&t, &mgr, true, false, "tighten the tests") {
        Ok(ChangeRequest::Revise { status, review_round, to_agent_id, actor }) => {
            assert_eq!(status, TaskStatus::ChangesRequested);
            assert_eq!(review_round, 2);
            assert_eq!(to_agent_id, "dev");
            assert_eq!(actor, "manager");
        }
        other => panic!("unexpected {:?}", other),
    }
    let peer = avatar("rev", "s1", "office");
    match change_request_decision(&t, &peer, false, true, "ok") {
        Ok(ChangeRequest::Revise { actor, .. }) => assert_eq!(actor, "peer"),
        other => panic!("unexpected {:?}", other),
    }
}

#[test]
fn change_request_escalates_at_the_round_limit() {
    let mut t = task("s1", Some("dev"), TaskStatus::AwaitingReview);
    t.review_round = MAX_REVIEW_ROUNDS;
    let mgr = avatar("boss", "s1", "office");
    match change_request_decision(&t, &mgr, true, false, "again") {
        Ok(ChangeRequest::Escalate { status, review_round, reason }) => {
            assert_eq!(reason, "max_review_rounds_exceeded");
            assert_eq!(status, TaskStatus::Escalated);
            assert_eq!(review_round, MAX_REVIEW_ROUNDS);
        }
        other => panic!("unexpected {:?}", other),
    }
    t.status = TaskStatus::Escalated;
    let e = change_request_decision(&t, &mgr, true, false, "again").unwrap_err();
    assert_eq!(e.0, "illegal_transition");
}

#[test]
fn change_request_refusals() {
    let t = task("s1", Some("dev"), TaskStatus::AwaitingReview);
    let long = "x".repeat(MAX_BODY_LENGTH + 1);
    let mgr = avatar("boss", "s1", "office");
    assert_eq!(change_request_decision(&t, &mgr, true, false, &long).unwrap_err().0, "body_too_long");
    let outsider = avatar("boss", "s2", "office");
    assert_eq!(change_request_decision(&t, &outsider, true, false, "x").unwrap_err().0, "cross_startup");
    let dev = avatar("dev", "s1", "office");
    assert_eq!(change_request_decision(&t, &dev, false, true, "x").unwrap_err().0, "no_permission");
    let unassigned = task("s1", None, TaskStatus::AwaitingReview);
    assert_eq!(change_request_decision(&unassigned, &mgr, true, false, "x").unwrap_err().0, "no_assignee");
    let working = task("s1", Some("dev"), TaskStatus::InProgress);
    assert_eq!(change_request_decision(&working, &mgr, true, false, "x").unwrap_err().0, "illegal_transition");
}

#[test]
fn catalogue_lists_every_dispatched_tool_once() {
    let c = tool_catalog();
    assert_eq!(c.len(), 26);
    assert_eq!(c[0].0, McpTool::MoveIntent);
    assert_eq!(c[0].1, "Walk the caller toward a target room (and optional tile).");
    let mut names: Vec<&str> = c.iter().map(|(t, _)| tool_name_str(*t)).collect();
    for n in &names {
        assert_eq!(tool_name_str(parse_tool(n).unwrap()), *n);
    }
    names.sort();
    names.dedup();
    assert_eq!(names.len(), 26);
    assert_eq!(tool_name_str(McpTool::TaskSetBlocking), "task_set_blocking");
}

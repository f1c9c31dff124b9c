use cliptown_world::auth::{OperatorIdentity, OperatorRole};
use cliptown_world::console::{check_accept_proposal, command_kind, operator_move, possess, precheck, required_role, unpossess, OPERATOR_AVATAR_ID};
use cliptown_world::health::Health;
use cliptown_world::protocol::{ConsoleInbound, SchemaVersion};
use cliptown_world::state::WorldView;
use cliptown_world::task_sm::TaskStatus;

fn who(role: OperatorRole) -> OperatorIdentity {
    OperatorIdentity { id: "op_1".into(), name: "n".into(), role }
}

#[test]
fn viewers_are_forbidden_mutations() {
    let cmd = ConsoleInbound::OperatorForceFail { v: 1, task_id: "T".into(), note: "n".into() };
    assert_eq!(required_role(&cmd), OperatorRole::Manager);
    assert_eq!(precheck(&who(OperatorRole::Viewer), &cmd), Err("forbidden"));
    assert_eq!(precheck(&who(OperatorRole::Manager), &cmd), Ok(()));
    let cmd = ConsoleInbound::OperatorList { v: 1 };
    assert_eq!(precheck(&who(OperatorRole::Manager), &cmd), Err("forbidden"));
    assert_eq!(precheck(&who(OperatorRole::Admin), &cmd), Ok(()));
    let cmd = ConsoleInbound::OperatorPossess { v: 1, startup_id: "S1".into() };
    assert_eq!(precheck(&who(OperatorRole::Viewer), &cmd), Ok(()));
}

#[test]
fn directive_body_limit() {
    let long = ConsoleInbound::OperatorDirective { v: 1, to_agent_id: "A".into(), body: "x".repeat(4097) };
    assert_eq!(precheck(&who(OperatorRole::Manager), &long), Err("body_too_long"));
    assert_eq!(precheck(&who(OperatorRole::Viewer), &long), Err("forbidden"));
    let ok = ConsoleInbound::OperatorDirective { v: 1, to_agent_id: "A".into(), body: "x".repeat(4096) };
    assert_eq!(precheck(&who(OperatorRole::Manager), &ok), Ok(()));
}

#[test]
fn operator_management_checks() {
    let admin = who(OperatorRole::Admin);
    let c = ConsoleInbound::OperatorCreate { v: 1, name: "bob".into(), role: "root".into() };
    assert_eq!(precheck(&admin, &c), Err("bad_role"));
    let c = ConsoleInbound::OperatorCreate { v: 1, name: " \t\n".into(), role: "viewer".into() };
    assert_eq!(precheck(&admin, &c), Err("bad_name"));
    let c = ConsoleInbound::OperatorCreate { v: 1, name: "bob".into(), role: "viewer".into() };
    assert_eq!(precheck(&admin, &c), Ok(()));
    let c = ConsoleInbound::OperatorRevoke { v: 1, operator_id: "op_1".into() };
    assert_eq!(precheck(&admin, &c), Err("cannot_revoke_self"));
    let c = ConsoleInbound::OperatorRevoke { v: 1, operator_id: "op_2".into() };
    assert_eq!(precheck(&admin, &c), Ok(()));
    let c = ConsoleInbound::OperatorSetRole { v: 1, operator_id: "op_1".into(), role: "viewer".into() };
    assert_eq!(precheck(&admin, &c), Err("cannot_demote_self"));
    let c = ConsoleInbound::OperatorSetRole { v: 1, operator_id: "op_1".into(), role: "admin".into() };
    assert_eq!(precheck(&admin, &c), Ok(()));
    let c = ConsoleInbound::OperatorSetRole { v: 1, operator_id: "op_2".into(), role: "boss".into() };
    assert_eq!(precheck(&admin, &c), Err("bad_role"));
}

#[test]
fn command_kinds() {
    assert_eq!(command_kind(&ConsoleInbound::OperatorRecheckBackends), "operator_recheck_backends");
    assert_eq!(command_kind(&ConsoleInbound::PresenceHeartbeat { v: 1, focused_startup_id: None }), "presence_heartbeat");
    assert_eq!(command_kind(&ConsoleInbound::Hello { v: 1, operator_token: "t".into() }), "hello");
    assert_eq!(SchemaVersion::current().v, 1);
}

#[test]
fn possess_move_unpossess() {
    let mut w = WorldView::new();
    assert!(!operator_move(&mut w, 3, 4));
    possess(&mut w, "S1");
    assert_eq!(w.avatars.len(), 1);
    let a = &w.avatars[0];
    assert_eq!(a.agent_id, OPERATOR_AVATAR_ID);
    assert_eq!(a.startup_id, "S1");
    assert_eq!(a.room_id, "lobby");
    assert_eq!(a.current_pos, (20, 5));
    assert_eq!(a.health, Health::Online);
    assert!(operator_move(&mut w, 3, 4));
    assert_eq!(w.avatars[0].target_pos, Some((3, 4)));
    possess(&mut w, "S2");
    assert_eq!(w.avatars.len(), 1);
    assert_eq!(w.avatars[0].startup_id, "S2");
    unpossess(&mut w);
    assert!(w.avatars.is_empty());
}

#[test]
fn operator_accepts_only_proposals_within_the_startup() {
    assert_eq!(check_accept_proposal(TaskStatus::Proposed, "S1", Some("S1")), Ok(()));
    assert_eq!(check_accept_proposal(TaskStatus::Queued, "S1", Some("S1")), Err(("illegal_transition", None)));
    assert_eq!(check_accept_proposal(TaskStatus::Proposed, "S1", None), Err(("unknown_assignee", Some("no such agent"))));
    assert_eq!(
        check_accept_proposal(TaskStatus::Proposed, "S1", Some("S2")),
        Err(("cross_startup", Some("assignee in different startup")))
    );
}

use cliptown_world::action_locks::{acquired, conflict, lock_expiry, DEFAULT_TTL_SECS};
use cliptown_world::api_startups::{backend_allowed, check_create_request, creation_response, founding_agents, founding_avatars, home_desk_offset, workspace_path, BackendChoice};
use cliptown_world::backend_catalog::probe_result;
use cliptown_world::execenv_gc::GcConfig;
use cliptown_world::health::Health;
use cliptown_world::mcp_http::{method_not_found_message, parse_bearer, route, RpcRoute};
use cliptown_world::permissions::{can_enter_room, can_receive_chat_in_room, can_send_directive, AgentKind, AgentRef};

fn backends() -> BackendChoice {
    BackendChoice { founder: "claude_code".into(), engineer: "codex".into(), designer: "opencode".into() }
}

#[test]
fn create_request_checks() {
    assert_eq!(check_create_request("acme", &backends()), Ok(()));
    assert_eq!(check_create_request("  ", &backends()), Err("name required"));
    let mut b = backends();
    b.designer = "gpt".into();
    assert_eq!(check_create_request("acme", &b), Err("unknown backend"));
    assert!(backend_allowed("codex"));
    assert!(!backend_allowed("Codex"));
}

#[test]
fn founding_agents_and_desks() {
    let plan = founding_agents("a-f", "a-e", "a-d", &backends());
    assert_eq!(plan.len(), 3);
    assert_eq!(plan[0], ("founder", "a-f".to_string(), "claude_code".to_string(), None));
    assert_eq!(plan[1], ("engineer", "a-e".to_string(), "codex".to_string(), Some("a-f".to_string())));
    assert_eq!(plan[2], ("designer", "a-d".to_string(), "opencode".to_string(), Some("a-f".to_string())));
    assert_eq!(home_desk_offset("engineer"), (3, 1));
    assert_eq!(home_desk_offset("janitor"), (1, 1));
    let avs = founding_avatars("S1", "suite_3", 33, 0, &plan);
    assert_eq!(avs[0].current_pos, (34, 1));
    assert_eq!(avs[1].current_pos, (36, 1));
    assert_eq!(avs[2].current_pos, (38, 1));
    assert!(avs.iter().all(|a| a.health == Health::Offline && a.room_id == "suite_3" && a.status == "idle"));
    let resp = creation_response("S1".into(), "suite_3".into(), &plan);
    assert_eq!(resp.agents[1].role, "engineer");
    assert_eq!(resp.agents[1].id, "a-e");
    assert_eq!(workspace_path("S1"), "workspaces/S1");
}

#[test]
fn backend_probes() {
    let ok = probe_result("codex", "hint", 5, Some(b"  codex 1.2.3\n"));
    assert!(ok.available);
    assert_eq!(ok.version.as_deref(), Some("codex 1.2.3"));
    assert_eq!(ok.install_hint, None);
    let bad = probe_result("codex", "hint", 5, None);
    assert!(!bad.available);
    assert_eq!(bad.install_hint.as_deref(), Some("hint"));
    assert_eq!(bad.last_checked_ts, 5);
}

#[test]
fn gc_settings() {
    assert!(GcConfig::from_settings(None, None, None, None).is_none());
    assert!(GcConfig::from_settings(Some("0"), None, None, None).is_none());
    let c = GcConfig::from_settings(Some("1"), None, None, None).unwrap();
    assert_eq!(c.max_age_secs, 7 * 86_400);
    assert_eq!(c.interval, std::time::Duration::from_secs(6 * 3600));
    assert_eq!(c.workspaces_root, std::path::PathBuf::from("./workspaces"));
    let c = GcConfig::from_settings(Some("1"), Some(1), Some(1), Some("/tmp/cliptown-test".into())).unwrap();
    assert_eq!(c.max_age_secs, 86_400);
    assert_eq!(c.interval, std::time::Duration::from_secs(3600));
    assert_eq!(c.workspaces_root, std::path::PathBuf::from("/tmp/cliptown-test"));
}

#[test]
fn from_env_disabled_by_default() {
    assert!(GcConfig::from_settings(None, None, None, None).is_none());
}

#[test]
fn from_env_reads_overrides() {
    let cfg = GcConfig::from_settings(Some("1"), Some(3), Some(2), Some("/tmp/cliptown-test".into())).expect("should be enabled");
    assert_eq!(cfg.max_age_secs, 3 * 86400);
    assert_eq!(cfg.interval, std::time::Duration::from_secs(2 * 3600));
    assert_eq!(cfg.workspaces_root, std::path::PathBuf::from("/tmp/cliptown-test"));
}

#[test]
fn locks() {
    assert_eq!(lock_expiry(100, DEFAULT_TTL_SECS), 130);
    let l = acquired("k", "op1", Some("Ann".into()), 130);
    assert_eq!(l.operator_name, "Ann");
    let l = acquired("k", "op1", None, 130);
    assert_eq!(l.operator_name, "op1");
    let c = conflict("k", None);
    assert_eq!((c.operator_id.as_str(), c.operator_name.as_str(), c.expires_at), ("?", "?", 0));
    let c = conflict("k", Some(("op2".into(), "Bo".into(), 9)));
    assert_eq!((c.operator_id.as_str(), c.operator_name.as_str(), c.expires_at), ("op2", "Bo", 9));
}

#[test]
fn mcp_http_auth_and_routing() {
    assert_eq!(parse_bearer("Bearer a-1:s:e:c"), Ok(("a-1".to_string(), "s:e:c".to_string())));
    assert_eq!(parse_bearer("Basic x"), Err("missing bearer token"));
    assert_eq!(parse_bearer("Bearer nocolon"), Err("token must be <agent_id>:<secret>"));
    assert_eq!(parse_bearer("Bearer :x"), Ok((String::new(), "x".to_string())));
    assert_eq!(route("2.0", "initialize"), RpcRoute::Initialize);
    assert_eq!(route("2.0", "tools/list"), RpcRoute::ToolsList);
    assert_eq!(route("2.0", "tools/call"), RpcRoute::ToolsCall);
    assert_eq!(route("2.0", "notifications/initialized"), RpcRoute::Notification);
    assert_eq!(route("2.0", "resources/list"), RpcRoute::NotFound);
    assert_eq!(route("1.0", "initialize"), RpcRoute::BadVersion);
    assert_eq!(method_not_found_message("x/y"), "method not found: x/y");
}

#[test]
fn permission_rules() {
    let a = AgentRef { agent_id: "A", startup_id: "S1", kind: AgentKind::Agent, manager_id: Some("M") };
    let m = AgentRef { agent_id: "M", startup_id: "S1", kind: AgentKind::Agent, manager_id: None };
    let x = AgentRef { agent_id: "X", startup_id: "S2", kind: AgentKind::Agent, manager_id: None };
    let op = AgentRef { agent_id: "__operator__", startup_id: "S1", kind: AgentKind::Operator, manager_id: None };
    assert!(can_enter_room(&a, None));
    assert!(can_enter_room(&a, Some("S1")));
    assert!(!can_enter_room(&x, Some("S1")));
    assert!(can_enter_room(&op, Some("S9")));
    assert!(can_send_directive(&m, &a));
    assert!(!can_send_directive(&a, &m));
    assert!(!can_send_directive(&x, &a));
    assert!(can_send_directive(&op, &x));
    assert!(can_receive_chat_in_room(&a, &m, Some("S1")));
    assert!(!can_receive_chat_in_room(&x, &a, Some("S1")));
}

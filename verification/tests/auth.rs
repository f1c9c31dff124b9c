use cliptown_world::auth::{check_agent_secret, resolve_operator_token, AuthError, OperatorIdentity, OperatorRole};
use cliptown_world::auth::OperatorRole::{Admin, Manager, Viewer};

#[test]
fn role_at_least_orders_correctly() {
    assert!(Admin.at_least(Viewer));
    assert!(Admin.at_least(Manager));
    assert!(Admin.at_least(Admin));
    assert!(Manager.at_least(Viewer));
    assert!(Manager.at_least(Manager));
    assert!(!Manager.at_least(Admin));
    assert!(Viewer.at_least(Viewer));
    assert!(!Viewer.at_least(Manager));
    assert!(!Viewer.at_least(Admin));
}

#[test]
fn role_names_round_trip() {
    for r in [OperatorRole::Viewer, OperatorRole::Manager, OperatorRole::Admin] {
        assert_eq!(OperatorRole::from_str(r.as_str()), Some(r));
    }
    assert_eq!(OperatorRole::from_str("root"), None);
    assert_eq!(OperatorRole::from_str("Admin"), None);
}

#[test]
fn admin_for_tests_is_admin() {
    let o = OperatorIdentity::admin_for_tests();
    assert_eq!(o.id, "op_test");
    assert_eq!(o.name, "test-admin");
    assert_eq!(o.role, OperatorRole::Admin);
}

#[test]
fn validate_operator_token_via_seeded_admin_returns_admin_role() {
    let row = Some(("op_default".to_string(), "default-admin".to_string(), "admin".to_string()));
    let o = resolve_operator_token("dev-token", row, "").unwrap();
    assert_eq!(o.id, "op_default");
    assert_eq!(o.name, "default-admin");
    assert_eq!(o.role, OperatorRole::Admin);
}

#[test]
fn validate_operator_token_rejects_unknown_and_empty() {
    assert_eq!(resolve_operator_token("", None, "dev-token").unwrap_err(), AuthError::InvalidOperatorToken);
    assert_eq!(resolve_operator_token("wrong", None, "dev-token").unwrap_err(), AuthError::InvalidOperatorToken);
}

#[test]
fn validate_operator_token_supports_viewer_and_manager_rows() {
    let v = resolve_operator_token("tok_v", Some(("op_v".into(), "v".into(), "viewer".into())), "").unwrap();
    let m = resolve_operator_token("tok_m", Some(("op_m".into(), "m".into(), "manager".into())), "").unwrap();
    assert_eq!(v.role, OperatorRole::Viewer);
    assert_eq!(m.role, OperatorRole::Manager);
}

#[test]
fn bad_role_in_row_is_reported() {
    let e = resolve_operator_token("t", Some(("op".into(), "n".into(), "root".into())), "").unwrap_err();
    assert_eq!(e, AuthError::UnknownOperatorRole("root".into()));
}

#[test]
fn env_token_yields_env_admin() {
    let o = resolve_operator_token("secret-env", None, "secret-env").unwrap();
    assert_eq!(o.id, "op_env");
    assert_eq!(o.role, OperatorRole::Admin);
}

#[test]
fn agent_secret_checks() {
    assert_eq!(check_agent_secret(None, "s", "s"), Err(AuthError::UnknownAgent));
    assert_eq!(check_agent_secret(Some("S1".into()), "s", "t"), Err(AuthError::InvalidAgentSecret));
    assert_eq!(check_agent_secret(Some("S1".into()), "s", "s"), Ok("S1".to_string()));
}

//! Operator roles on an ascending privilege ladder, and the decisions of
//! operator-token and agent-secret validation over the looked-up rows.

use vstd::prelude::*;
use crate::text::str_eq;

verus! {

/// Operator roles, ascending privilege.
#[derive(Debug, Clone, Copy, PartialEq, Eq, Structural)]
pub enum OperatorRole {
    Viewer,
    Manager,
    Admin,
}

pub open spec fn rank(r: OperatorRole) -> int {
    match r {
        OperatorRole::Viewer => 0,
        OperatorRole::Manager => 1,
        OperatorRole::Admin => 2,
    }
}

pub open spec fn role_name(r: OperatorRole) -> Seq<char> {
    match r {
        OperatorRole::Viewer => "viewer"@,
        OperatorRole::Manager => "manager"@,
        OperatorRole::Admin => "admin"@,
    }
}

pub open spec fn role_from_name(s: Seq<char>) -> Option<OperatorRole> {
    if s == "viewer"@ {
        Some(OperatorRole::Viewer)
    } else if s == "manager"@ {
        Some(OperatorRole::Manager)
    } else if s == "admin"@ {
        Some(OperatorRole::Admin)
    } else {
        None
    }
}

impl OperatorRole {
    pub fn from_str(s: &str) -> (r: Option<Self>)
        ensures
            r == role_from_name(s@),
    {
        if str_eq(s, "viewer") {
            Some(OperatorRole::Viewer)
        } else if str_eq(s, "manager") {
            Some(OperatorRole::Manager)
        } else if str_eq(s, "admin") {
            Some(OperatorRole::Admin)
        } else {
            None
        }
    }

    pub fn as_str(self) -> (s: &'static str)
        ensures
            s@ == role_name(self),
    {
        match self {
            OperatorRole::Viewer => "viewer",
            OperatorRole::Manager => "manager",
            OperatorRole::Admin => "admin",
        }
    }

    fn level(self) -> (l: u8)
        ensures
            l == rank(self),
    {
        match self {
            OperatorRole::Viewer => 0,
            OperatorRole::Manager => 1,
            OperatorRole::Admin => 2,
        }
    }

    /// `a.at_least(b)` iff `a` has at least the privilege of `b`.
    pub fn at_least(self, other: OperatorRole) -> (r: bool)
        ensures
            r == (rank(self) >= rank(other)),
    {
        self.level() >= other.level()
    }
}

/// `at_least` is a total order on roles.
pub proof fn law_at_least_total_order(a: OperatorRole, b: OperatorRole, c: OperatorRole)
    ensures
        rank(a) >= rank(a),
        rank(a) >= rank(b) && rank(b) >= rank(c) ==> rank(a) >= rank(c),
        rank(a) >= rank(b) && rank(b) >= rank(a) ==> a == b,
        rank(a) >= rank(b) || rank(b) >= rank(a),
{
}

/// Privilege grows from viewer to manager to admin, and the three role
/// names are `viewer`, `manager` and `admin`.
pub proof fn law_role_ladder()
    ensures
        rank(OperatorRole::Viewer) < rank(OperatorRole::Manager),
        rank(OperatorRole::Manager) < rank(OperatorRole::Admin),
        role_from_name("viewer"@) == Some(OperatorRole::Viewer),
        role_from_name("manager"@) == Some(OperatorRole::Manager),
        role_from_name("admin"@) == Some(OperatorRole::Admin),
{
    reveal_strlit("viewer");
    reveal_strlit("manager");
    reveal_strlit("admin");
    assert("manager"@[0] != "viewer"@[0]);
    assert("admin"@[0] != "viewer"@[0]);
    assert("admin"@[0] != "manager"@[0]);
}

/// A role's name parses back to the role.
pub proof fn law_role_name_roundtrip(r: OperatorRole)
    ensures
        role_from_name(role_name(r)) == Some(r),
{
    reveal_strlit("viewer");
    reveal_strlit("manager");
    reveal_strlit("admin");
    assert("manager"@[0] != "viewer"@[0]);
    assert("admin"@[0] != "viewer"@[0]);
    assert("admin"@[0] != "manager"@[0]);
}

/// An operator after a successful token validation.
#[derive(Debug, Clone)]
pub struct OperatorIdentity {
    pub id: String,
    pub name: String,
    pub role: OperatorRole,
}

impl OperatorIdentity {
    /// Synthetic admin identity for tests that dispatch console commands
    /// without going through authentication.
    pub fn admin_for_tests() -> (o: Self)
        ensures
            o.id@ == "op_test"@,
            o.name@ == "test-admin"@,
            o.role == OperatorRole::Admin,
    {
        OperatorIdentity {
            id: "op_test".to_owned(),
            name: "test-admin".to_owned(),
            role: OperatorRole::Admin,
        }
    }
}

/// Why authentication failed.
#[derive(Debug, Clone, PartialEq, Eq)]
pub enum AuthError {
    InvalidOperatorToken,
    /// The operator row holds a role name that is not a role.
    UnknownOperatorRole(String),
    UnknownAgent,
    InvalidAgentSecret,
}

/// Decide an operator token from the operators-table row found for it
/// (`(id, name, role)`, if any) and the legacy environment token: an empty
/// token is refused; a row yields its identity (if its role parses); with
/// no row, the environment token yields the synthetic admin.
pub fn resolve_operator_token(
    token: &str,
    row: Option<(String, String, String)>,
    env_token: &str,
) -> (r: Result<OperatorIdentity, AuthError>)
    ensures
        token@.len() == 0 ==> r == Err::<OperatorIdentity, AuthError>(AuthError::InvalidOperatorToken),
        token@.len() > 0 ==> match row {
            Some(t) => match role_from_name(t.2@) {
                Some(role) => r matches Ok(o) && o.id == t.0 && o.name == t.1 && o.role == role,
                None => r == Err::<OperatorIdentity, AuthError>(AuthError::UnknownOperatorRole(t.2)),
            },
            None => if token@ == env_token@ {
                r matches Ok(o) && o.id@ == "op_env"@ && o.name@ == "env-admin"@ && o.role
                    == OperatorRole::Admin
            } else {
                r == Err::<OperatorIdentity, AuthError>(AuthError::InvalidOperatorToken)
            },
        },
{
    if token.is_empty() {
        return Err(AuthError::InvalidOperatorToken);
    }
    match row {
        Some((id, name, role_str)) => match OperatorRole::from_str(role_str.as_str()) {
            Some(role) => Ok(OperatorIdentity { id, name, role }),
            None => Err(AuthError::UnknownOperatorRole(role_str)),
        },
        None => {
            if str_eq(token, env_token) {
                Ok(
                    OperatorIdentity {
                        id: "op_env".to_owned(),
                        name: "env-admin".to_owned(),
                        role: OperatorRole::Admin,
                    },
                )
            } else {
                Err(AuthError::InvalidOperatorToken)
            }
        },
    }
}

/// Decide a worker's secret from the agent's startup (if the agent
/// exists) and the expected secret: the startup id on success.
pub fn check_agent_secret(agent_startup: Option<String>, secret: &str, expected: &str) -> (r: Result<String, AuthError>)
    ensures
        match agent_startup {
            None => r == Err::<String, AuthError>(AuthError::UnknownAgent),
            Some(s) => if secret@ == expected@ {
                r == Ok::<String, AuthError>(s)
            } else {
                r == Err::<String, AuthError>(AuthError::InvalidAgentSecret)
            },
        },
{
    match agent_startup {
        None => Err(AuthError::UnknownAgent),
        Some(s) => {
            if str_eq(secret, expected) {
                Ok(s)
            } else {
                Err(AuthError::InvalidAgentSecret)
            }
        },
    }
}

} // verus!

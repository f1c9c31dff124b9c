//! Creating a task through the operator API: who may, which bodies are
//! refused and with which status and error, and the status a new task
//! starts in. The endpoint authenticates, looks the startup and the
//! assignee up and writes the row.

use vstd::prelude::*;
use vstd::string::StrSliceExecFns;
use crate::auth::{OperatorRole, rank};
use crate::text::{blank, is_blank, str_eq};

verus! {

/// The operator token of a request: the `Authorization` header without its
/// `Bearer ` prefix (or whole, when it has none), else the
/// `X-Operator-Token` header, else empty.
pub open spec fn operator_token_spec(authorization: Option<Seq<char>>, x_operator_token: Option<Seq<char>>) -> Seq<
    char,
> {
    match authorization {
        Some(a) => if a.len() >= 7 && a.subrange(0, 7) == "Bearer "@ {
            a.subrange(7, a.len() as int)
        } else {
            a
        },
        None => match x_operator_token {
            Some(x) => x,
            None => Seq::empty(),
        },
    }
}

/// The operator token carried by a request's headers.
pub fn operator_token<'a>(authorization: Option<&'a str>, x_operator_token: Option<&'a str>) -> (t: &'a str)
    ensures
        t@ == operator_token_spec(
            match authorization {
                Some(a) => Some(a@),
                None => None,
            },
            match x_operator_token {
                Some(x) => Some(x@),
                None => None,
            },
        ),
{
    proof {
        reveal_strlit("Bearer ");
        reveal_strlit("");
    }
    match authorization {
        Some(a) => {
            let n = a.unicode_len();
            if n >= 7 && str_eq(a.substring_char(0, 7), "Bearer ") {
                a.substring_char(7, n)
            } else {
                a
            }
        },
        None => match x_operator_token {
            Some(x) => x,
            None => "",
        },
    }
}

/// A refused creation: HTTP status and error text.
pub type Refusal = (u16, &'static str);

/// The checks on a creation body before storage is consulted: a caller
/// below manager is refused with 403 `forbidden`; a blank title or
/// description with 400 `title and description required`.
pub fn check_create_task(role: OperatorRole, title: &str, description: &str) -> (r: Result<(), Refusal>)
    ensures
        rank(role) < rank(OperatorRole::Manager) ==> (r matches Err(e) && e.0 == 403 && e.1@ == "forbidden"@),
        rank(role) >= rank(OperatorRole::Manager) && (blank(title@) || blank(description@)) ==> (r matches Err(e)
            && e.0 == 400 && e.1@ == "title and description required"@),
        rank(role) >= rank(OperatorRole::Manager) && !blank(title@) && !blank(description@) ==> r is Ok,
{
    if !role.at_least(OperatorRole::Manager) {
        return Err((403, "forbidden"));
    }
    if is_blank(title) || is_blank(description) {
        return Err((400, "title and description required"));
    }
    Ok(())
}

/// The check on a named assignee, given the assignee's startup if the
/// agent exists: an unknown agent is 404 `unknown_assignee`, an agent of
/// another startup 400 `cross_startup`.
pub fn check_task_assignee(assignee_startup: Option<&str>, startup_id: &str) -> (r: Result<(), Refusal>)
    ensures
        assignee_startup is None ==> (r matches Err(e) && e.0 == 404 && e.1@ == "unknown_assignee"@),
        (assignee_startup matches Some(s) && s@ != startup_id@) ==> (r matches Err(e) && e.0 == 400 && e.1@
            == "cross_startup"@),
        (assignee_startup matches Some(s) && s@ == startup_id@) ==> r is Ok,
{
    match assignee_startup {
        None => Err((404, "unknown_assignee")),
        Some(s) => {
            if str_eq(s, startup_id) {
                Ok(())
            } else {
                Err((400, "cross_startup"))
            }
        },
    }
}

/// The status a new task starts in: queued for the scheduler when it has
/// an assignee, proposed otherwise.
pub fn initial_status(has_assignee: bool) -> (s: &'static str)
    ensures
        has_assignee ==> s@ == "queued"@,
        !has_assignee ==> s@ == "proposed"@,
{
    if has_assignee {
        "queued"
    } else {
        "proposed"
    }
}

/// A `Bearer ` authorization yields the token after the prefix, whatever
/// the other header says.
pub proof fn law_bearer_token_stripped(t: Seq<char>, x_operator_token: Option<Seq<char>>)
    ensures
        operator_token_spec(Some("Bearer "@ + t), x_operator_token) == t,
{
    reveal_strlit("Bearer ");
    let a = "Bearer "@ + t;
    assert(a.subrange(0, 7) =~= "Bearer "@);
    assert(a.subrange(7, a.len() as int) =~= t);
}

/// The authorization header, when present, decides the token alone; an
/// authorization without the prefix is the token as it stands; without an
/// authorization the `X-Operator-Token` header is the token, and with
/// neither the token is empty.
pub proof fn law_token_sources(a: Seq<char>, x1: Option<Seq<char>>, x2: Option<Seq<char>>, x: Seq<char>)
    ensures
        operator_token_spec(Some(a), x1) == operator_token_spec(Some(a), x2),
        !(a.len() >= 7 && a.subrange(0, 7) == "Bearer "@) ==> operator_token_spec(Some(a), x1) == a,
        operator_token_spec(None, Some(x)) == x,
        operator_token_spec(None, None) == Seq::<char>::empty(),
{
}

} // verus!

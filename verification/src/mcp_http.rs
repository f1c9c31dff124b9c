//! MCP over HTTP (JSON-RPC 2.0): the bearer token's form, and which
//! handler a request goes to. The endpoint parses the envelope, checks
//! the agent's secret and builds the replies.

use vstd::prelude::*;
use vstd::std_specs::iter::IteratorSpec;
use vstd::string::StrSliceExecFns;
use crate::text::str_eq;

verus! {

/// The MCP protocol version announced by `initialize`.
pub const PROTOCOL_VERSION: &'static str = "2025-03-26";

/// The server name announced by `initialize`.
pub const SERVER_NAME: &'static str = "cliptown-world";

pub open spec fn is_first_colon(s: Seq<char>, i: int) -> bool {
    0 <= i < s.len() && s[i] == ':' && forall|j: int| 0 <= j < i ==> s[j] != ':'
}

/// The credentials of an `Authorization` header `Bearer <agent_id>:<secret>`,
/// split at the first colon; otherwise the reason it is refused.
pub open spec fn bearer_spec(header: Seq<char>) -> Result<(Seq<char>, Seq<char>), Seq<char>> {
    if !(header.len() >= 7 && header.subrange(0, 7) == "Bearer "@) {
        Err("missing bearer token"@)
    } else {
        let token = header.subrange(7, header.len() as int);
        if exists|i: int| is_first_colon(token, i) {
            let i = choose|i: int| is_first_colon(token, i);
            Ok((token.subrange(0, i), token.subrange(i + 1, token.len() as int)))
        } else {
            Err("token must be <agent_id>:<secret>"@)
        }
    }
}

/// Split an `Authorization` header into (agent id, secret).
pub fn parse_bearer(header: &str) -> (r: Result<(String, String), &'static str>)
    ensures
        match bearer_spec(header@) {
            Ok((a, s)) => r matches Ok(p) && p.0@ == a && p.1@ == s,
            Err(m) => r matches Err(e) && e@ == m,
        },
{
    broadcast use vstd::string::axiom_spec_iter;
    proof {
        reveal_strlit("Bearer ");
    }
    let n = header.unicode_len();
    if n < 7 || !str_eq(header.substring_char(0, 7), "Bearer ") {
        return Err("missing bearer token");
    }
    let token = header.substring_char(7, n);
    let tn = token.unicode_len();
    let mut i: usize = 0;
    let mut found = false;
    for c in iter: token.chars()
        invariant
            iter.seq() == token@,
            tn == token@.len(),
            i <= iter.index(),
            !found ==> i == iter.index() && forall|j: int| 0 <= j < i ==> token@[j] != ':',
            found ==> is_first_colon(token@, i as int),
    {
        if !found {
            if c == ':' {
                found = true;
            } else {
                i = i + 1;
            }
        }
    }
    if !found {
        proof {
            assert forall|k: int| !is_first_colon(token@, k) by {
                if is_first_colon(token@, k) {
                    assert(token@[k] == ':');
                }
            }
        }
        return Err("token must be <agent_id>:<secret>");
    }
    proof {
        let k = choose|k: int| is_first_colon(token@, k);
        if k < i {
            assert(token@[k] != ':');
        }
        if k > i {
            assert(token@[i as int] != ':');
        }
    }
    let agent = token.substring_char(0, i);
    let secret = token.substring_char(i + 1, tn);
    Ok((agent.to_owned(), secret.to_owned()))
}

/// Where a JSON-RPC request goes.
#[derive(Debug, Clone, Copy, PartialEq, Eq, Structural)]
pub enum RpcRoute {
    /// The envelope's `jsonrpc` is not `2.0`: an invalid request.
    BadVersion,
    Initialize,
    ToolsList,
    ToolsCall,
    /// A notification: accepted with an empty body.
    Notification,
    /// No such method.
    NotFound,
}

pub open spec fn route_spec(jsonrpc: Seq<char>, method: Seq<char>) -> RpcRoute {
    if jsonrpc != "2.0"@ {
        RpcRoute::BadVersion
    } else if method == "initialize"@ {
        RpcRoute::Initialize
    } else if method == "tools/list"@ {
        RpcRoute::ToolsList
    } else if method == "tools/call"@ {
        RpcRoute::ToolsCall
    } else if method.len() >= 14 && method.subrange(0, 14) == "notifications/"@ {
        RpcRoute::Notification
    } else {
        RpcRoute::NotFound
    }
}

/// The route of a request with envelope version `jsonrpc` and method
/// `method`.
pub fn route(jsonrpc: &str, method: &str) -> (r: RpcRoute)
    ensures
        r == route_spec(jsonrpc@, method@),
{
    if !str_eq(jsonrpc, "2.0") {
        return RpcRoute::BadVersion;
    }
    if str_eq(method, "initialize") {
        return RpcRoute::Initialize;
    }
    if str_eq(method, "tools/list") {
        return RpcRoute::ToolsList;
    }
    if str_eq(method, "tools/call") {
        return RpcRoute::ToolsCall;
    }
    proof {
        reveal_strlit("notifications/");
    }
    let n = method.unicode_len();
    if n >= 14 && str_eq(method.substring_char(0, 14), "notifications/") {
        return RpcRoute::Notification;
    }
    RpcRoute::NotFound
}

/// The message of the `method not found` error.
pub fn method_not_found_message(method: &str) -> (m: String)
    ensures
        m@ == "method not found: "@ + method@,
{
    let mut m = "method not found: ".to_owned();
    m.append(method);
    m
}


/// A header built from an agent id without a colon and any secret parses
/// back to that id and secret.
pub proof fn law_bearer_roundtrip(agent_id: Seq<char>, secret: Seq<char>)
    requires
        forall|i: int| 0 <= i < agent_id.len() ==> agent_id[i] != ':',
    ensures
        bearer_spec("Bearer "@ + agent_id + seq![':'] + secret) == Ok::<
            (Seq<char>, Seq<char>),
            Seq<char>,
        >((agent_id, secret)),
{
    reveal_strlit("Bearer ");
    let h = "Bearer "@ + agent_id + seq![':'] + secret;
    assert(h.subrange(0, 7) =~= "Bearer "@);
    let token = h.subrange(7, h.len() as int);
    assert(token =~= agent_id + seq![':'] + secret);
    let n = agent_id.len() as int;
    assert(token[n] == ':');
    assert(is_first_colon(token, n));
    let k = choose|k: int| is_first_colon(token, k);
    if k < n {
        assert(token[k] == agent_id[k]);
    }
    if k > n {
        assert(token[n] == ':');
    }
    assert(token.subrange(0, n) =~= agent_id);
    assert(token.subrange(n + 1, token.len() as int) =~= secret);
}

/// Routing: any envelope version but `2.0` is refused as a bad version;
/// under `2.0` the three methods go to their handlers and every
/// `notifications/...` method is a notification.
pub proof fn law_rpc_routes(version: Seq<char>, method: Seq<char>, rest: Seq<char>)
    ensures
        (route_spec(version, method) == RpcRoute::BadVersion) <==> version != "2.0"@,
        route_spec("2.0"@, "initialize"@) == RpcRoute::Initialize,
        route_spec("2.0"@, "tools/list"@) == RpcRoute::ToolsList,
        route_spec("2.0"@, "tools/call"@) == RpcRoute::ToolsCall,
        route_spec("2.0"@, "notifications/"@ + rest) == RpcRoute::Notification,
{
    reveal_strlit("notifications/");
    reveal_strlit("initialize");
    reveal_strlit("tools/list");
    reveal_strlit("tools/call");
    let m = "notifications/"@ + rest;
    assert(m.subrange(0, 14) =~= "notifications/"@);
    assert(m.len() != "initialize"@.len());
    assert(m.len() != "tools/list"@.len());
    assert(m.len() != "tools/call"@.len());
    assert("tools/list"@[6] != "tools/call"@[6]);
    assert("initialize"@[0] != "tools/list"@[0]);
    assert("initialize"@[0] != "tools/call"@[0]);
}

} // verus!

//! Creating a startup: the request's checks, the three founding agents
//! (founder, engineer, designer) with their backends, managers and desks
//! in the claimed suite, and the response. The endpoint claims the suite,
//! writes the rows and spawns the workers.

use vstd::prelude::*;
use crate::health::Health;
use crate::state::AvatarView;
use crate::text::{blank, is_blank, str_eq};

verus! {

/// The backends a worker can run.
pub const ALLOWED_BACKENDS: [&'static str; 3] = ["claude_code", "codex", "opencode"];

/// Which backend each founding agent runs.
#[derive(Debug)]
pub struct BackendChoice {
    pub founder: String,
    pub engineer: String,
    pub designer: String,
}

/// The body of a successful creation.
#[derive(Debug)]
pub struct CreateStartupResponse {
    pub id: String,
    pub suite_id: String,
    pub agents: Vec<AgentRef>,
}

/// One created agent.
#[derive(Debug)]
pub struct AgentRef {
    pub id: String,
    pub role: String,
    pub backend: String,
}

pub open spec fn backend_ok(b: Seq<char>) -> bool {
    b == "claude_code"@ || b == "codex"@ || b == "opencode"@
}

/// Whether `b` is a known backend.
pub fn backend_allowed(b: &str) -> (r: bool)
    ensures
        r == backend_ok(b@),
{
    str_eq(b, "claude_code") || str_eq(b, "codex") || str_eq(b, "opencode")
}

/// The checks on a creation request after the budget's: a blank name is
/// refused with `name required`, then any unknown backend with
/// `unknown backend`.
pub fn check_create_request(name: &str, backends: &BackendChoice) -> (r: Result<(), &'static str>)
    ensures
        blank(name@) ==> (r matches Err(e) && e@ == "name required"@),
        !blank(name@) && !(backend_ok(backends.founder@) && backend_ok(backends.engineer@)
            && backend_ok(backends.designer@)) ==> (r matches Err(e) && e@ == "unknown backend"@),
        !blank(name@) && backend_ok(backends.founder@) && backend_ok(backends.engineer@) && backend_ok(
            backends.designer@,
        ) ==> r is Ok,
{
    if is_blank(name) {
        return Err("name required");
    }
    if !backend_allowed(backends.founder.as_str()) || !backend_allowed(backends.engineer.as_str())
        || !backend_allowed(backends.designer.as_str()) {
        return Err("unknown backend");
    }
    Ok(())
}

pub open spec fn desk_offset(role: Seq<char>) -> (i32, i32) {
    if role == "founder"@ {
        (1, 1)
    } else if role == "engineer"@ {
        (3, 1)
    } else if role == "designer"@ {
        (5, 1)
    } else {
        (1, 1)
    }
}

/// A role's desk inside its suite, as an offset from the suite's corner:
/// founder front-left, engineer front-middle, designer front-right.
pub fn home_desk_offset(role: &str) -> (r: (i32, i32))
    ensures
        r == desk_offset(role@),
{
    if str_eq(role, "founder") {
        (1, 1)
    } else if str_eq(role, "engineer") {
        (3, 1)
    } else if str_eq(role, "designer") {
        (5, 1)
    } else {
        (1, 1)
    }
}

pub open spec fn workspace_text(startup_id: Seq<char>) -> Seq<char> {
    "workspaces/"@ + startup_id
}

/// The startup's workspace directory: `workspaces/<startup_id>`.
pub fn workspace_path(startup_id: &str) -> (s: String)
    ensures
        s@ == workspace_text(startup_id@),
{
    let mut s = "workspaces/".to_owned();
    s.append(startup_id);
    s
}

/// The founding agents, in creation order: (role, agent id, backend,
/// manager). The founder has no manager; the other two report to it.
pub open spec fn founding_plan(ids: (Seq<char>, Seq<char>, Seq<char>), b: BackendChoice) -> Seq<
    (Seq<char>, Seq<char>, Seq<char>, Option<Seq<char>>),
> {
    seq![
        ("founder"@, ids.0, b.founder@, None),
        ("engineer"@, ids.1, b.engineer@, Some(ids.0)),
        ("designer"@, ids.2, b.designer@, Some(ids.0)),
    ]
}

pub open spec fn plan_view(p: Seq<(&str, String, String, Option<String>)>) -> Seq<
    (Seq<char>, Seq<char>, Seq<char>, Option<Seq<char>>),
> {
    p.map_values(
        |e: (&str, String, String, Option<String>)|
            (
                e.0@,
                e.1@,
                e.2@,
                match e.3 {
                    Some(m) => Some(m@),
                    None => None,
                },
            ),
    )
}

/// The founding agents of a startup whose agents get ids `founder_id`,
/// `engineer_id` and `designer_id`.
pub fn founding_agents(
    founder_id: &str,
    engineer_id: &str,
    designer_id: &str,
    backends: &BackendChoice,
) -> (p: Vec<(&'static str, String, String, Option<String>)>)
    ensures
        plan_view(p@) == founding_plan((founder_id@, engineer_id@, designer_id@), *backends),
{
    let mut p: Vec<(&'static str, String, String, Option<String>)> = Vec::new();
    p.push(("founder", founder_id.to_owned(), backends.founder.clone(), None));
    p.push(("engineer", engineer_id.to_owned(), backends.engineer.clone(), Some(founder_id.to_owned())));
    p.push(("designer", designer_id.to_owned(), backends.designer.clone(), Some(founder_id.to_owned())));
    assert(plan_view(p@) =~= founding_plan((founder_id@, engineer_id@, designer_id@), *backends));
    p
}

pub open spec fn desk_fits(x: i32, y: i32) -> bool {
    x + 5 <= i32::MAX && y + 1 <= i32::MAX
}

/// A founding agent's avatar: in the suite, at its role's desk, idle and
/// (until its worker connects) offline.
pub open spec fn founding_avatar_spec(
    a: AvatarView,
    startup_id: Seq<char>,
    suite_id: Seq<char>,
    suite_x: i32,
    suite_y: i32,
    e: (Seq<char>, Seq<char>, Seq<char>, Option<Seq<char>>),
) -> bool {
    &&& a.agent_id@ == e.1
    &&& a.startup_id@ == startup_id
    &&& a.role@ == e.0
    &&& a.backend@ == e.2
    &&& a.current_pos.0 == suite_x + desk_offset(e.0).0
    &&& a.current_pos.1 == suite_y + desk_offset(e.0).1
    &&& a.target_pos is None
    &&& a.room_id@ == suite_id
    &&& a.status@ == "idle"@
    &&& a.last_seen_at is None
    &&& a.health == Health::Offline
}

/// The avatars of the founding agents, in plan order, for a suite whose
/// corner is `(suite_x, suite_y)`.
pub fn founding_avatars(
    startup_id: &str,
    suite_id: &str,
    suite_x: i32,
    suite_y: i32,
    plan: &Vec<(&'static str, String, String, Option<String>)>,
) -> (avs: Vec<AvatarView>)
    requires
        desk_fits(suite_x, suite_y),
    ensures
        avs@.len() == plan@.len(),
        forall|i: int|
            0 <= i < plan@.len() ==> founding_avatar_spec(
                #[trigger] avs@[i],
                startup_id@,
                suite_id@,
                suite_x,
                suite_y,
                plan_view(plan@)[i],
            ),
{
    let mut avs: Vec<AvatarView> = Vec::new();
    let mut i: usize = 0;
    while i < plan.len()
        invariant
            0 <= i <= plan@.len(),
            desk_fits(suite_x, suite_y),
            avs@.len() == i,
            forall|j: int|
                0 <= j < i ==> founding_avatar_spec(
                    #[trigger] avs@[j],
                    startup_id@,
                    suite_id@,
                    suite_x,
                    suite_y,
                    plan_view(plan@)[j],
                ),
        decreases plan.len() - i,
    {
        let e = &plan[i];
        let (ox, oy) = home_desk_offset(e.0);
        avs.push(
            AvatarView {
                agent_id: e.1.clone(),
                startup_id: startup_id.to_owned(),
                role: e.0.to_owned(),
                backend: e.2.clone(),
                current_pos: (suite_x + ox, suite_y + oy),
                target_pos: None,
                room_id: suite_id.to_owned(),
                status: "idle".to_owned(),
                last_seen_at: None,
                health: Health::Offline,
            },
        );
        i += 1;
    }
    avs
}

/// The response for a created startup: its id, its suite and the agents
/// in plan order.
pub fn creation_response(
    startup_id: String,
    suite_id: String,
    plan: &Vec<(&'static str, String, String, Option<String>)>,
) -> (r: CreateStartupResponse)
    ensures
        r.id == startup_id,
        r.suite_id == suite_id,
        r.agents@.len() == plan@.len(),
        forall|i: int|
            0 <= i < plan@.len() ==> (#[trigger] r.agents@[i]).id@ == plan@[i].1@ && r.agents@[i].role@
                == plan@[i].0@ && r.agents@[i].backend@ == plan@[i].2@,
{
    let mut agents: Vec<AgentRef> = Vec::new();
    let mut i: usize = 0;
    while i < plan.len()
        invariant
            0 <= i <= plan@.len(),
            agents@.len() == i,
            forall|j: int|
                0 <= j < i ==> (#[trigger] agents@[j]).id@ == plan@[j].1@ && agents@[j].role@
                    == plan@[j].0@ && agents@[j].backend@ == plan@[j].2@,
        decreases plan.len() - i,
    {
        let e = &plan[i];
        agents.push(AgentRef { id: e.1.clone(), role: e.0.to_owned(), backend: e.2.clone() });
        i += 1;
    }
    CreateStartupResponse { id: startup_id, suite_id, agents }
}

} // verus!

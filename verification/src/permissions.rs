//! Permission predicates that enforce multi-tenant isolation: no directive
//! crosses a startup boundary and no agent enters a foreign suite.

use vstd::prelude::*;
use crate::text::str_eq;

verus! {

#[derive(Debug, Clone)]
pub struct AgentRef<'a> {
    pub agent_id: &'a str,
    pub startup_id: &'a str,
    pub kind: AgentKind,
    pub manager_id: Option<&'a str>,
}

#[derive(Debug, Clone, Copy, PartialEq, Eq, Structural)]
pub enum AgentKind {
    Agent,
    Operator,
}

pub open spec fn can_enter_room_spec(agent: AgentRef, room_private_to: Option<&str>) -> bool {
    agent.kind == AgentKind::Operator || match room_private_to {
        None => true,
        Some(owner) => owner@ == agent.startup_id@,
    }
}

pub open spec fn can_send_directive_spec(from: AgentRef, to: AgentRef) -> bool {
    from.kind == AgentKind::Operator || (from.startup_id@ == to.startup_id@ && match to.manager_id {
        Some(m) => m@ == from.agent_id@,
        None => false,
    })
}

/// An agent may enter a room iff the room is common or private to the
/// agent's own startup; the operator may enter any room.
pub fn can_enter_room(agent: &AgentRef, room_private_to: Option<&str>) -> (r: bool)
    ensures
        r == can_enter_room_spec(*agent, room_private_to),
{
    if agent.kind == AgentKind::Operator {
        return true;
    }
    match room_private_to {
        None => true,
        Some(owner) => str_eq(owner, agent.startup_id),
    }
}

/// A directive may go from `from` to `to` only when `from` is the operator
/// or the manager of `to` within the same startup.
pub fn can_send_directive(from: &AgentRef, to: &AgentRef) -> (r: bool)
    ensures
        r == can_send_directive_spec(*from, *to),
{
    if from.kind == AgentKind::Operator {
        return true;
    }
    if !str_eq(from.startup_id, to.startup_id) {
        return false;
    }
    match to.manager_id {
        Some(m) => str_eq(m, from.agent_id),
        None => false,
    }
}

/// Chat is room-scoped: a listener receives a chat in a room iff both the
/// listener and the speaker may be in that room.
pub fn can_receive_chat_in_room(listener: &AgentRef, speaker: &AgentRef, room_private_to: Option<&str>) -> (r: bool)
    ensures
        r == (can_enter_room_spec(*listener, room_private_to) && can_enter_room_spec(*speaker, room_private_to)),
{
    can_enter_room(listener, room_private_to) && can_enter_room(speaker, room_private_to)
}

/// The operator may enter every room.
pub proof fn law_operator_enters_every_room(agent: AgentRef, room_private_to: Option<&str>)
    requires
        agent.kind == AgentKind::Operator,
    ensures
        can_enter_room_spec(agent, room_private_to),
{
}

/// An agent never enters a room held privately by another startup.
pub proof fn law_no_foreign_suite(agent: AgentRef, owner: &str)
    requires
        agent.kind == AgentKind::Agent,
        owner@ != agent.startup_id@,
    ensures
        !can_enter_room_spec(agent, Some(owner)),
{
}

/// A directive from a non-operator stays inside one startup and goes only
/// to an agent that the sender manages.
pub proof fn law_directives_stay_in_startup(from: AgentRef, to: AgentRef)
    requires
        from.kind == AgentKind::Agent,
        can_send_directive_spec(from, to),
    ensures
        from.startup_id@ == to.startup_id@,
        to.manager_id matches Some(m) && m@ == from.agent_id@,
{
}

/// Chat permission does not depend on who listens and who speaks.
pub proof fn law_chat_symmetric(a: AgentRef, b: AgentRef, room_private_to: Option<&str>)
    ensures
        (can_enter_room_spec(a, room_private_to) && can_enter_room_spec(b, room_private_to)) == (
        can_enter_room_spec(b, room_private_to) && can_enter_room_spec(a, room_private_to)),
{
}

/// Every agent may enter a common room and the rooms private to its own
/// startup.
pub proof fn law_common_and_own_rooms(agent: AgentRef, own: &str)
    requires
        own@ == agent.startup_id@,
    ensures
        can_enter_room_spec(agent, None),
        can_enter_room_spec(agent, Some(own)),
{
}

/// The operator may direct anyone, and an agent may direct the agents it
/// manages in its own startup.
pub proof fn law_who_may_direct(from: AgentRef, to: AgentRef)
    ensures
        from.kind == AgentKind::Operator ==> can_send_directive_spec(from, to),
        (from.startup_id@ == to.startup_id@ && (to.manager_id matches Some(m) && m@ == from.agent_id@))
            ==> can_send_directive_spec(from, to),
{
}

} // verus!

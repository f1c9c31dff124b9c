//! The operator console's command rules: each command's name, the role it
//! needs, the checks made before anything is written, and the changes
//! the operator's own avatar undergoes. Storage writes and broadcasts are
//! the server's part.

use vstd::prelude::*;
use crate::auth::{OperatorIdentity, OperatorRole, rank, role_from_name, role_name};
use crate::health::Health;
use crate::protocol::ConsoleInbound;
use crate::state::{AvatarView, WorldView, avatar_index};
use crate::mcp_dispatch::{MAX_BODY_LENGTH, char_count};
use crate::text::{blank, is_blank, str_eq};
use crate::task_sm::{Actor, TaskStatus, Transition, next, next_spec};

verus! {

/// Agent id of the operator's avatar.
pub const OPERATOR_AVATAR_ID: &'static str = "__operator__";

pub open spec fn kind_name(cmd: ConsoleInbound) -> Seq<char> {
    match cmd {
        ConsoleInbound::Hello { .. } => "hello"@,
        ConsoleInbound::OperatorMove { .. } => "operator_move"@,
        ConsoleInbound::OperatorPossess { .. } => "operator_possess"@,
        ConsoleInbound::OperatorUnpossess { .. } => "operator_unpossess"@,
        ConsoleInbound::OperatorDirective { .. } => "operator_directive"@,
        ConsoleInbound::OperatorAcceptProposal { .. } => "operator_accept_proposal"@,
        ConsoleInbound::OperatorRejectProposal { .. } => "operator_reject_proposal"@,
        ConsoleInbound::OperatorForceAccept { .. } => "operator_force_accept"@,
        ConsoleInbound::OperatorForceFail { .. } => "operator_force_fail"@,
        ConsoleInbound::OperatorRecheckBackends => "operator_recheck_backends"@,
        ConsoleInbound::SkillAttach { .. } => "skill_attach"@,
        ConsoleInbound::SkillDetach { .. } => "skill_detach"@,
        ConsoleInbound::SkillUpsertOperator { .. } => "skill_upsert_operator"@,
        ConsoleInbound::SkillDeleteOperator { .. } => "skill_delete_operator"@,
        ConsoleInbound::SkillSetGlobal { .. } => "skill_set_global"@,
        ConsoleInbound::OperatorList { .. } => "operator_list"@,
        ConsoleInbound::OperatorCreate { .. } => "operator_create"@,
        ConsoleInbound::OperatorRevoke { .. } => "operator_revoke"@,
        ConsoleInbound::OperatorSetRole { .. } => "operator_set_role"@,
        ConsoleInbound::AgentSetPeerReviewer { .. } => "agent_set_peer_reviewer"@,
        ConsoleInbound::StartupSetAutoSteal { .. } => "startup_set_auto_steal"@,
        ConsoleInbound::SkillListRevisionsOperator { .. } => "skill_list_revisions_operator"@,
        ConsoleInbound::SkillRevertOperator { .. } => "skill_revert_operator"@,
        ConsoleInbound::PresenceHeartbeat { .. } => "presence_heartbeat"@,
    }
}

/// The command's name, as its wire tag and in the logs.
pub fn command_kind(cmd: &ConsoleInbound) -> (r: &'static str)
    ensures
        r@ == kind_name(*cmd),
{
    match cmd {
        ConsoleInbound::Hello { .. } => "hello",
        ConsoleInbound::OperatorMove { .. } => "operator_move",
        ConsoleInbound::OperatorPossess { .. } => "operator_possess",
        ConsoleInbound::OperatorUnpossess { .. } => "operator_unpossess",
        ConsoleInbound::OperatorDirective { .. } => "operator_directive",
        ConsoleInbound::OperatorAcceptProposal { .. } => "operator_accept_proposal",
        ConsoleInbound::OperatorRejectProposal { .. } => "operator_reject_proposal",
        ConsoleInbound::OperatorForceAccept { .. } => "operator_force_accept",
        ConsoleInbound::OperatorForceFail { .. } => "operator_force_fail",
        ConsoleInbound::OperatorRecheckBackends => "operator_recheck_backends",
        ConsoleInbound::SkillAttach { .. } => "skill_attach",
        ConsoleInbound::SkillDetach { .. } => "skill_detach",
        ConsoleInbound::SkillUpsertOperator { .. } => "skill_upsert_operator",
        ConsoleInbound::SkillDeleteOperator { .. } => "skill_delete_operator",
        ConsoleInbound::SkillSetGlobal { .. } => "skill_set_global",
        ConsoleInbound::OperatorList { .. } => "operator_list",
        ConsoleInbound::OperatorCreate { .. } => "operator_create",
        ConsoleInbound::OperatorRevoke { .. } => "operator_revoke",
        ConsoleInbound::OperatorSetRole { .. } => "operator_set_role",
        ConsoleInbound::AgentSetPeerReviewer { .. } => "agent_set_peer_reviewer",
        ConsoleInbound::StartupSetAutoSteal { .. } => "startup_set_auto_steal",
        ConsoleInbound::SkillListRevisionsOperator { .. } => "skill_list_revisions_operator",
        ConsoleInbound::SkillRevertOperator { .. } => "skill_revert_operator",
        ConsoleInbound::PresenceHeartbeat { .. } => "presence_heartbeat",
    }
}

/// The least role a command needs: reading and moving about are open to
/// every operator, changing tasks and skills needs a manager, and managing
/// operators, global skills and per-startup or per-agent flags needs an
/// admin.
pub open spec fn required_role_spec(cmd: ConsoleInbound) -> OperatorRole {
    match cmd {
        ConsoleInbound::Hello { .. } => OperatorRole::Viewer,
        ConsoleInbound::OperatorMove { .. } => OperatorRole::Viewer,
        ConsoleInbound::OperatorPossess { .. } => OperatorRole::Viewer,
        ConsoleInbound::OperatorUnpossess { .. } => OperatorRole::Viewer,
        ConsoleInbound::OperatorRecheckBackends => OperatorRole::Viewer,
        ConsoleInbound::SkillListRevisionsOperator { .. } => OperatorRole::Viewer,
        ConsoleInbound::PresenceHeartbeat { .. } => OperatorRole::Viewer,
        ConsoleInbound::OperatorDirective { .. } => OperatorRole::Manager,
        ConsoleInbound::OperatorAcceptProposal { .. } => OperatorRole::Manager,
        ConsoleInbound::OperatorRejectProposal { .. } => OperatorRole::Manager,
        ConsoleInbound::OperatorForceAccept { .. } => OperatorRole::Manager,
        ConsoleInbound::OperatorForceFail { .. } => OperatorRole::Manager,
        ConsoleInbound::SkillAttach { .. } => OperatorRole::Manager,
        ConsoleInbound::SkillDetach { .. } => OperatorRole::Manager,
        ConsoleInbound::SkillUpsertOperator { .. } => OperatorRole::Manager,
        ConsoleInbound::SkillDeleteOperator { .. } => OperatorRole::Manager,
        ConsoleInbound::SkillRevertOperator { .. } => OperatorRole::Manager,
        ConsoleInbound::SkillSetGlobal { .. } => OperatorRole::Admin,
        ConsoleInbound::OperatorList { .. } => OperatorRole::Admin,
        ConsoleInbound::OperatorCreate { .. } => OperatorRole::Admin,
        ConsoleInbound::OperatorRevoke { .. } => OperatorRole::Admin,
        ConsoleInbound::OperatorSetRole { .. } => OperatorRole::Admin,
        ConsoleInbound::AgentSetPeerReviewer { .. } => OperatorRole::Admin,
        ConsoleInbound::StartupSetAutoSteal { .. } => OperatorRole::Admin,
    }
}

/// The least role `cmd` needs.
pub fn required_role(cmd: &ConsoleInbound) -> (r: OperatorRole)
    ensures
        r == required_role_spec(*cmd),
{
    match cmd {
        ConsoleInbound::Hello { .. } => OperatorRole::Viewer,
        ConsoleInbound::OperatorMove { .. } => OperatorRole::Viewer,
        ConsoleInbound::OperatorPossess { .. } => OperatorRole::Viewer,
        ConsoleInbound::OperatorUnpossess { .. } => OperatorRole::Viewer,
        ConsoleInbound::OperatorRecheckBackends => OperatorRole::Viewer,
        ConsoleInbound::SkillListRevisionsOperator { .. } => OperatorRole::Viewer,
        ConsoleInbound::PresenceHeartbeat { .. } => OperatorRole::Viewer,
        ConsoleInbound::OperatorDirective { .. } => OperatorRole::Manager,
        ConsoleInbound::OperatorAcceptProposal { .. } => OperatorRole::Manager,
        ConsoleInbound::OperatorRejectProposal { .. } => OperatorRole::Manager,
        ConsoleInbound::OperatorForceAccept { .. } => OperatorRole::Manager,
        ConsoleInbound::OperatorForceFail { .. } => OperatorRole::Manager,
        ConsoleInbound::SkillAttach { .. } => OperatorRole::Manager,
        ConsoleInbound::SkillDetach { .. } => OperatorRole::Manager,
        ConsoleInbound::SkillUpsertOperator { .. } => OperatorRole::Manager,
        ConsoleInbound::SkillDeleteOperator { .. } => OperatorRole::Manager,
        ConsoleInbound::SkillRevertOperator { .. } => OperatorRole::Manager,
        ConsoleInbound::SkillSetGlobal { .. } => OperatorRole::Admin,
        ConsoleInbound::OperatorList { .. } => OperatorRole::Admin,
        ConsoleInbound::OperatorCreate { .. } => OperatorRole::Admin,
        ConsoleInbound::OperatorRevoke { .. } => OperatorRole::Admin,
        ConsoleInbound::OperatorSetRole { .. } => OperatorRole::Admin,
        ConsoleInbound::AgentSetPeerReviewer { .. } => OperatorRole::Admin,
        ConsoleInbound::StartupSetAutoSteal { .. } => OperatorRole::Admin,
    }
}

/// The refusal of a command before anything is written, if any: an
/// operator below the command's role is `forbidden`; then a directive
/// longer than `MAX_BODY_LENGTH` characters is `body_too_long`, an unknown
/// role name is `bad_role`, a blank new operator name is `bad_name`, and
/// an admin may neither revoke nor change the role of their own account
/// (`cannot_revoke_self`, `cannot_demote_self`).
pub open spec fn precheck_spec(who_id: Seq<char>, who_role: OperatorRole, cmd: ConsoleInbound) -> Option<
    Seq<char>,
> {
    if rank(who_role) < rank(required_role_spec(cmd)) {
        Some("forbidden"@)
    } else {
        match cmd {
            ConsoleInbound::OperatorDirective { body, .. } => if body@.len() > MAX_BODY_LENGTH {
                Some("body_too_long"@)
            } else {
                None
            },
            ConsoleInbound::OperatorCreate { name, role, .. } => if role_from_name(role@) is None {
                Some("bad_role"@)
            } else if blank(name@) {
                Some("bad_name"@)
            } else {
                None
            },
            ConsoleInbound::OperatorRevoke { operator_id, .. } => if operator_id@ == who_id {
                Some("cannot_revoke_self"@)
            } else {
                None
            },
            ConsoleInbound::OperatorSetRole { operator_id, role, .. } => if role_from_name(role@) is None {
                Some("bad_role"@)
            } else if operator_id@ == who_id && role@ != role_name(who_role) {
                Some("cannot_demote_self"@)
            } else {
                None
            },
            _ => None,
        }
    }
}

/// The refusal of `cmd` by `who` before any write, as the `reason` of the
/// error reply; `Ok` when the command may proceed.
pub fn precheck(who: &OperatorIdentity, cmd: &ConsoleInbound) -> (r: Result<(), &'static str>)
    ensures
        match precheck_spec(who.id@, who.role, *cmd) {
            Some(reason) => r matches Err(e) && e@ == reason,
            None => r is Ok,
        },
{
    if !who.role.at_least(required_role(cmd)) {
        return Err("forbidden");
    }
    match cmd {
        ConsoleInbound::OperatorDirective { body, .. } => {
            if char_count(body.as_str()) > MAX_BODY_LENGTH {
                return Err("body_too_long");
            }
            Ok(())
        },
        ConsoleInbound::OperatorCreate { name, role, .. } => {
            if OperatorRole::from_str(role.as_str()).is_none() {
                return Err("bad_role");
            }
            if is_blank(name.as_str()) {
                return Err("bad_name");
            }
            Ok(())
        },
        ConsoleInbound::OperatorRevoke { operator_id, .. } => {
            if crate::text::str_eq(operator_id.as_str(), who.id.as_str()) {
                return Err("cannot_revoke_self");
            }
            Ok(())
        },
        ConsoleInbound::OperatorSetRole { operator_id, role, .. } => {
            if OperatorRole::from_str(role.as_str()).is_none() {
                return Err("bad_role");
            }
            if crate::text::str_eq(operator_id.as_str(), who.id.as_str()) && !crate::text::str_eq(
                role.as_str(),
                who.role.as_str(),
            ) {
                return Err("cannot_demote_self");
            }
            Ok(())
        },
        _ => Ok(()),
    }
}

/// The operator's avatar on possessing `startup_id`: online, idle, in the
/// lobby at tile (20, 5).
pub open spec fn operator_avatar_spec(a: AvatarView, startup_id: Seq<char>) -> bool {
    &&& a.agent_id@ == OPERATOR_AVATAR_ID@
    &&& a.startup_id@ == startup_id
    &&& a.role@ == "operator"@
    &&& a.backend@ == "operator"@
    &&& a.current_pos == (20i32, 5i32)
    &&& a.target_pos is None
    &&& a.room_id@ == "lobby"@
    &&& a.status@ == "idle"@
    &&& a.last_seen_at is None
    &&& a.health == Health::Online
}

/// Possess a startup: the operator's avatar is placed (or replaced) in the
/// world.
pub fn possess(world: &mut WorldView, startup_id: &str)
    requires
        old(world).wf(),
    ensures
        final(world).wf(),
        final(world).tick_seq == old(world).tick_seq,
        match avatar_index(old(world).avatars@, OPERATOR_AVATAR_ID@) {
            Some(i) => final(world).avatars@.len() == old(world).avatars@.len() && operator_avatar_spec(
                final(world).avatars@[i],
                startup_id@,
            ) && forall|j: int|
                0 <= j < old(world).avatars@.len() && j != i ==> final(world).avatars@[j]
                    == old(world).avatars@[j],
            None => final(world).avatars@.drop_last() == old(world).avatars@ && operator_avatar_spec(
                final(world).avatars@.last(),
                startup_id@,
            ),
        },
{
    let avatar = AvatarView {
        agent_id: OPERATOR_AVATAR_ID.to_owned(),
        startup_id: startup_id.to_owned(),
        role: "operator".to_owned(),
        backend: "operator".to_owned(),
        current_pos: (20, 5),
        target_pos: None,
        room_id: "lobby".to_owned(),
        status: "idle".to_owned(),
        last_seen_at: None,
        health: Health::Online,
    };
    world.upsert_avatar(avatar);
}

/// Stop possessing: the operator's avatar leaves the world.
pub fn unpossess(world: &mut WorldView)
    requires
        old(world).wf(),
    ensures
        final(world).wf(),
        final(world).tick_seq == old(world).tick_seq,
        match avatar_index(old(world).avatars@, OPERATOR_AVATAR_ID@) {
            Some(i) => final(world).avatars@ == old(world).avatars@.remove(i),
            None => final(world).avatars@ == old(world).avatars@,
        },
{
    world.remove_avatar(OPERATOR_AVATAR_ID);
}

/// Point the operator's avatar at a tile. `false`, with nothing changed,
/// when the operator possesses no startup.
pub fn operator_move(world: &mut WorldView, target_x: i32, target_y: i32) -> (possessing: bool)
    requires
        old(world).wf(),
    ensures
        final(world).wf(),
        final(world).tick_seq == old(world).tick_seq,
        match avatar_index(old(world).avatars@, OPERATOR_AVATAR_ID@) {
            Some(i) => possessing && final(world).avatars@ == old(world).avatars@.update(
                i,
                AvatarView { target_pos: Some((target_x, target_y)), ..old(world).avatars@[i] },
            ),
            None => !possessing && final(world).avatars@ == old(world).avatars@,
        },
{
    match world.find(OPERATOR_AVATAR_ID) {
        Some(i) => {
            let mut a = world.avatars[i].clone();
            a.target_pos = Some((target_x, target_y));
            world.upsert_avatar(a);
            true
        },
        None => false,
    }
}


/// A viewer is refused every command that needs more than a viewer, before
/// anything else is looked at.
pub proof fn law_viewer_forbidden(who_id: Seq<char>, cmd: ConsoleInbound)
    requires
        required_role_spec(cmd) != OperatorRole::Viewer,
    ensures
        precheck_spec(who_id, OperatorRole::Viewer, cmd) == Some("forbidden"@),
{
}

/// An admin passes the role gate of every command.
pub proof fn law_admin_passes_role_gate(who_id: Seq<char>, cmd: ConsoleInbound)
    ensures
        precheck_spec(who_id, OperatorRole::Admin, cmd) != Some("forbidden"@),
{
    reveal_strlit("forbidden");
    reveal_strlit("body_too_long");
    reveal_strlit("bad_role");
    reveal_strlit("bad_name");
    reveal_strlit("cannot_revoke_self");
    reveal_strlit("cannot_demote_self");
    assert("body_too_long"@[0] != "forbidden"@[0]);
    assert("bad_role"@[0] != "forbidden"@[0]);
    assert("bad_name"@[0] != "forbidden"@[0]);
    assert("cannot_revoke_self"@[0] != "forbidden"@[0]);
    assert("cannot_demote_self"@[0] != "forbidden"@[0]);
}

/// An admin can neither revoke their own account nor give it another
/// role, so a session never loses its admin mid-way.
pub proof fn law_admin_keeps_itself(who_id: Seq<char>, cmd: ConsoleInbound)
    ensures
        (cmd matches ConsoleInbound::OperatorRevoke { operator_id, .. } && operator_id@ == who_id)
            ==> precheck_spec(who_id, OperatorRole::Admin, cmd) == Some("cannot_revoke_self"@),
        (cmd matches ConsoleInbound::OperatorSetRole { operator_id, role, .. } && operator_id@ == who_id
            && role_from_name(role@) is Some && role@ != role_name(OperatorRole::Admin)) ==> precheck_spec(
            who_id,
            OperatorRole::Admin,
            cmd,
        ) == Some("cannot_demote_self"@),
{
}

/// An operator's acceptance of a proposed task, given the task's status and
/// startup and the named assignee's startup (if the agent exists): the
/// state machine must allow it (`illegal_transition`), the assignee must
/// exist (`unknown_assignee`) and belong to the task's startup
/// (`cross_startup`). The refusal is `(reason, detail)`.
pub fn check_accept_proposal(status: TaskStatus, task_startup: &str, assignee_startup: Option<&str>) -> (r: Result<
    (),
    (&'static str, Option<&'static str>),
>)
    ensures
        next_spec(status, Transition::AcceptProposal { caller: Actor::Operator }) is None ==> (r matches Err(e)
            && e.0@ == "illegal_transition"@ && e.1 is None),
        next_spec(status, Transition::AcceptProposal { caller: Actor::Operator }) is Some ==> match assignee_startup {
            None => r matches Err(e) && e.0@ == "unknown_assignee"@ && (e.1 matches Some(d) && d@ == "no such agent"@),
            Some(s) => if s@ == task_startup@ {
                r is Ok
            } else {
                r matches Err(e) && e.0@ == "cross_startup"@ && (e.1 matches Some(d) && d@
                    == "assignee in different startup"@)
            },
        },
{
    if next(status, &Transition::AcceptProposal { caller: Actor::Operator }).is_err() {
        return Err(("illegal_transition", None));
    }
    match assignee_startup {
        None => Err(("unknown_assignee", Some("no such agent"))),
        Some(s) => {
            if str_eq(s, task_startup) {
                Ok(())
            } else {
                Err(("cross_startup", Some("assignee in different startup")))
            }
        },
    }
}

/// Managing operators, global skills and per-startup or per-agent flags
/// is for admins: a manager or a viewer is refused it as `forbidden`.
pub proof fn law_admin_only_commands(who_id: Seq<char>, cmd: ConsoleInbound)
    requires
        cmd is SkillSetGlobal || cmd is OperatorList || cmd is OperatorCreate || cmd is OperatorRevoke || cmd is OperatorSetRole
            || cmd is AgentSetPeerReviewer || cmd is StartupSetAutoSteal,
    ensures
        precheck_spec(who_id, OperatorRole::Manager, cmd) == Some("forbidden"@),
        precheck_spec(who_id, OperatorRole::Viewer, cmd) == Some("forbidden"@),
{
}

/// Changing tasks and skills needs a manager: a manager passes the role
/// gate of these commands, a viewer is refused them as `forbidden`.
pub proof fn law_manager_commands(who_id: Seq<char>, cmd: ConsoleInbound)
    requires
        cmd is OperatorDirective || cmd is OperatorAcceptProposal || cmd is OperatorRejectProposal
            || cmd is OperatorForceAccept || cmd is OperatorForceFail || cmd is SkillAttach || cmd is SkillDetach
            || cmd is SkillUpsertOperator || cmd is SkillDeleteOperator || cmd is SkillRevertOperator,
    ensures
        precheck_spec(who_id, OperatorRole::Viewer, cmd) == Some("forbidden"@),
        precheck_spec(who_id, OperatorRole::Manager, cmd) == precheck_spec(who_id, OperatorRole::Admin, cmd),
        precheck_spec(who_id, OperatorRole::Manager, cmd) != Some("forbidden"@),
{
    law_admin_passes_role_gate(who_id, cmd);
}

/// Reading, moving about, possessing and heartbeats are open to every
/// operator, and nothing else refuses them.
pub proof fn law_open_commands(who_id: Seq<char>, role: OperatorRole, cmd: ConsoleInbound)
    requires
        cmd is Hello || cmd is OperatorMove || cmd is OperatorPossess || cmd is OperatorUnpossess
            || cmd is OperatorRecheckBackends || cmd is SkillListRevisionsOperator || cmd is PresenceHeartbeat,
    ensures
        precheck_spec(who_id, role, cmd) is None,
{
}

} // verus!

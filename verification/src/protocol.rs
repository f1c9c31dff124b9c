//! Wire types shared with the workers and the operator console: the
//! schema version and the console's commands. Their JSON form lives with
//! the server, which converts.

use vstd::prelude::*;

verus! {

/// Version stamp carried by every frame.
#[derive(Debug, Clone, Copy, PartialEq, Eq, Structural)]
pub struct SchemaVersion {
    pub v: u8,
}

impl SchemaVersion {
    /// The version this server speaks.
    pub fn current() -> (s: SchemaVersion)
        ensures
            s.v == 1,
    {
        SchemaVersion { v: 1 }
    }
}

/// A command from the operator console.
#[derive(Debug, Clone)]
pub enum ConsoleInbound {
    Hello { v: u8, operator_token: String },
    OperatorMove { v: u8, target_x: i32, target_y: i32 },
    OperatorPossess { v: u8, startup_id: String },
    OperatorUnpossess { v: u8 },
    OperatorDirective { v: u8, to_agent_id: String, body: String },
    OperatorAcceptProposal {
        v: u8,
        task_id: String,
        assignee_agent_id: String,
        required_room: Option<String>,
    },
    OperatorRejectProposal { v: u8, task_id: String, reason: String },
    OperatorForceAccept { v: u8, task_id: String },
    OperatorForceFail { v: u8, task_id: String, note: String },
    OperatorRecheckBackends,
    SkillAttach { v: u8, startup_id: String, agent_id: String, skill_id: String },
    SkillDetach { v: u8, startup_id: String, agent_id: String, skill_id: String },
    SkillUpsertOperator {
        v: u8,
        startup_id: String,
        skill_id: Option<String>,
        name: String,
        content_md: String,
    },
    SkillDeleteOperator { v: u8, startup_id: String, skill_id: String },
    SkillSetGlobal { v: u8, skill_id: String, is_global: bool },
    OperatorList { v: u8 },
    OperatorCreate { v: u8, name: String, role: String },
    OperatorRevoke { v: u8, operator_id: String },
    OperatorSetRole { v: u8, operator_id: String, role: String },
    AgentSetPeerReviewer { v: u8, agent_id: String, is_peer_reviewer: bool },
    StartupSetAutoSteal { v: u8, startup_id: String, enabled: bool, after_secs: Option<i64> },
    SkillListRevisionsOperator { v: u8, startup_id: String, skill_id: String },
    SkillRevertOperator { v: u8, startup_id: String, skill_id: String, rev_seq: i64 },
    PresenceHeartbeat { v: u8, focused_startup_id: Option<String> },
}

} // verus!

//! The decisions of the MCP tool handlers: body-length limits, task status
//! names, chat fan-out, review rounds and subtask creation. The handlers
//! around them load rows, write storage and send frames.

use vstd::prelude::*;
use crate::task_sm::{TaskStatus, Transition, Actor, next, next_spec};
use crate::move_sys::StartMoveResult;
use crate::self_review::{canonical_artifact_path, canonical_path_text};
use crate::state::{AvatarView, WorldView};
use crate::text::{str_eq, usize_to_decimal, decimal};
use vstd::std_specs::iter::IteratorSpec;

verus! {

/// Review rounds after which a further change request escalates.
pub const MAX_REVIEW_ROUNDS: u32 = 3;

/// Cap, in characters, on user-supplied bodies (chat, directive, review
/// feedback).
pub const MAX_BODY_LENGTH: usize = 4096;

pub proof fn lemma_encode_len(s: Seq<char>)
    ensures
        vstd::utf8::encode_utf8(s).len() >= s.len(),
    decreases s.len(),
{
    if s.len() > 0 {
        lemma_encode_len(s.drop_first());
    }
}

/// Number of characters of `s`.
pub fn char_count(s: &str) -> (n: usize)
    ensures
        n == s@.len(),
{
    broadcast use vstd::string::axiom_spec_iter;
    let bytes = s.as_bytes();
    proof {
        lemma_encode_len(s@);
    }
    let blen = bytes.len();
    let mut n: usize = 0;
    for _c in iter: s.chars()
        invariant
            n == iter.index(),
            iter.seq() == s@,
            s@.len() <= blen,
            n <= iter.seq().len(),
    {
        assert(n < s@.len());
        n = n + 1;
    }
    n
}

/// Refuse a body longer than `MAX_BODY_LENGTH` characters with the error
/// code `body_too_long` and a message naming the field and the length.
pub fn check_body_length(field: &str, body: &str) -> (r: Result<(), (String, String)>)
    ensures
        body@.len() <= MAX_BODY_LENGTH ==> r is Ok,
        body@.len() > MAX_BODY_LENGTH ==> (r matches Err(e) && e.0@ == "body_too_long"@ && e.1@ == field@
            + " exceeds "@ + decimal(MAX_BODY_LENGTH as nat) + " chars (got "@ + decimal(body@.len())
            + ")"@),
{
    let len = char_count(body);
    if len > MAX_BODY_LENGTH {
        let max = usize_to_decimal(MAX_BODY_LENGTH);
        let got = usize_to_decimal(len);
        let mut msg = field.to_owned();
        msg.append(" exceeds ");
        msg.append(max.as_str());
        msg.append(" chars (got ");
        msg.append(got.as_str());
        msg.append(")");
        return Err(("body_too_long".to_owned(), msg));
    }
    Ok(())
}

pub open spec fn status_name(s: TaskStatus) -> Seq<char> {
    match s {
        TaskStatus::Proposed => "proposed"@,
        TaskStatus::Queued => "queued"@,
        TaskStatus::InProgress => "in_progress"@,
        TaskStatus::AwaitingReview => "awaiting_review"@,
        TaskStatus::ChangesRequested => "changes_requested"@,
        TaskStatus::Done => "done"@,
        TaskStatus::Failed => "failed"@,
        TaskStatus::Escalated => "escalated"@,
    }
}

pub open spec fn status_from_name(s: Seq<char>) -> Option<TaskStatus> {
    if s == "proposed"@ {
        Some(TaskStatus::Proposed)
    } else if s == "queued"@ {
        Some(TaskStatus::Queued)
    } else if s == "in_progress"@ {
        Some(TaskStatus::InProgress)
    } else if s == "awaiting_review"@ {
        Some(TaskStatus::AwaitingReview)
    } else if s == "changes_requested"@ {
        Some(TaskStatus::ChangesRequested)
    } else if s == "done"@ {
        Some(TaskStatus::Done)
    } else if s == "failed"@ {
        Some(TaskStatus::Failed)
    } else if s == "escalated"@ {
        Some(TaskStatus::Escalated)
    } else {
        None
    }
}

/// The task status stored under name `s`.
pub fn parse_status(s: &str) -> (r: Option<TaskStatus>)
    ensures
        r == status_from_name(s@),
{
    if str_eq(s, "proposed") {
        Some(TaskStatus::Proposed)
    } else if str_eq(s, "queued") {
        Some(TaskStatus::Queued)
    } else if str_eq(s, "in_progress") {
        Some(TaskStatus::InProgress)
    } else if str_eq(s, "awaiting_review") {
        Some(TaskStatus::AwaitingReview)
    } else if str_eq(s, "changes_requested") {
        Some(TaskStatus::ChangesRequested)
    } else if str_eq(s, "done") {
        Some(TaskStatus::Done)
    } else if str_eq(s, "failed") {
        Some(TaskStatus::Failed)
    } else if str_eq(s, "escalated") {
        Some(TaskStatus::Escalated)
    } else {
        None
    }
}

/// The storage name of a task status.
pub fn status_to_str(s: TaskStatus) -> (r: &'static str)
    ensures
        r@ == status_name(s),
{
    match s {
        TaskStatus::Proposed => "proposed",
        TaskStatus::Queued => "queued",
        TaskStatus::InProgress => "in_progress",
        TaskStatus::AwaitingReview => "awaiting_review",
        TaskStatus::ChangesRequested => "changes_requested",
        TaskStatus::Done => "done",
        TaskStatus::Failed => "failed",
        TaskStatus::Escalated => "escalated",
    }
}

/// A status name parses back to the status.
pub proof fn law_status_name_roundtrip(s: TaskStatus)
    ensures
        status_from_name(status_name(s)) == Some(s),
{
    reveal_strlit("proposed");
    reveal_strlit("queued");
    reveal_strlit("in_progress");
    reveal_strlit("awaiting_review");
    reveal_strlit("changes_requested");
    reveal_strlit("done");
    reveal_strlit("failed");
    reveal_strlit("escalated");
    let names = seq![
        "proposed"@,
        "queued"@,
        "in_progress"@,
        "awaiting_review"@,
        "changes_requested"@,
        "done"@,
        "failed"@,
        "escalated"@,
    ];
    assert(names[0] != names[1] && names[0] != names[2] && names[0] != names[3] && names[0]
        != names[4] && names[0] != names[5] && names[0] != names[6] && names[0] != names[7]) by {
        assert(names[0][0] == 'p');
        assert(names[1][0] == 'q' && names[2][0] == 'i' && names[3][0] == 'a' && names[4][0] == 'c'
            && names[5][0] == 'd' && names[6][0] == 'f' && names[7][0] == 'e');
    }
    assert(names[1] != names[2] && names[1] != names[3] && names[1] != names[4] && names[1]
        != names[5] && names[1] != names[6] && names[1] != names[7]) by {
        assert(names[1][0] == 'q');
        assert(names[2][0] == 'i' && names[3][0] == 'a' && names[4][0] == 'c' && names[5][0] == 'd'
            && names[6][0] == 'f' && names[7][0] == 'e');
    }
    assert(names[2] != names[3] && names[2] != names[4] && names[2] != names[5] && names[2]
        != names[6] && names[2] != names[7]) by {
        assert(names[2][0] == 'i');
        assert(names[3][0] == 'a' && names[4][0] == 'c' && names[5][0] == 'd' && names[6][0] == 'f'
            && names[7][0] == 'e');
    }
    assert(names[3] != names[4] && names[3] != names[5] && names[3] != names[6] && names[3]
        != names[7]) by {
        assert(names[3][0] == 'a');
        assert(names[4][0] == 'c' && names[5][0] == 'd' && names[6][0] == 'f' && names[7][0] == 'e');
    }
    assert(names[4] != names[5] && names[4] != names[6] && names[4] != names[7]) by {
        assert(names[4][0] == 'c');
        assert(names[5][0] == 'd' && names[6][0] == 'f' && names[7][0] == 'e');
    }
    assert(names[5] != names[6] && names[5] != names[7]) by {
        assert(names[5][0] == 'd' && names[6][0] == 'f' && names[7][0] == 'e');
    }
    assert(names[6] != names[7]) by {
        assert(names[6][0] == 'f' && names[7][0] == 'e');
    }
}

pub open spec fn is_public_room_spec(room: Seq<char>) -> bool {
    room == "lobby"@ || room == "cafe"@ || room == "library"@
}

/// The shared social rooms, where chat crosses startup boundaries.
pub fn is_public_room(room_id: &str) -> (r: bool)
    ensures
        r == is_public_room_spec(room_id@),
{
    str_eq(room_id, "lobby") || str_eq(room_id, "cafe") || str_eq(room_id, "library")
}

/// `peer` hears a chat that `speaker` says in the speaker's room: another
/// avatar in that room, of the same startup unless the room is public.
pub open spec fn hears_chat(speaker: AvatarView, peer: AvatarView) -> bool {
    &&& peer.agent_id@ != speaker.agent_id@
    &&& peer.room_id@ == speaker.room_id@
    &&& (peer.startup_id@ == speaker.startup_id@ || is_public_room_spec(speaker.room_id@))
}

pub open spec fn listener_filter(speaker: AvatarView) -> spec_fn(AvatarView) -> bool {
    |a: AvatarView| hears_chat(speaker, a)
}

/// The agent ids a chat by `speaker` is delivered to, in world order.
pub fn chat_recipients(world: &WorldView, speaker: &AvatarView) -> (ids: Vec<String>)
    ensures
        ids@.map_values(|s: String| s@) == world.avatars@.filter(listener_filter(*speaker)).map_values(
            |a: AvatarView| a.agent_id@,
        ),
{
    let public = is_public_room(speaker.room_id.as_str());
    let ghost f = listener_filter(*speaker);
    let ghost all = world.avatars@;
    let mut ids: Vec<String> = Vec::new();
    let mut i: usize = 0;
    proof {
        reveal(Seq::filter);
        assert(all.take(0).filter(f) =~= Seq::<AvatarView>::empty());
        assert(ids@.map_values(|s: String| s@) =~= Seq::<Seq<char>>::empty());
    }
    while i < world.avatars.len()
        invariant
            0 <= i <= all.len(),
            all == world.avatars@,
            f == listener_filter(*speaker),
            public == is_public_room_spec(speaker.room_id@),
            ids@.map_values(|s: String| s@) == all.take(i as int).filter(f).map_values(
                |a: AvatarView| a.agent_id@,
            ),
        decreases world.avatars.len() - i,
    {
        let peer = &world.avatars[i];
        proof {
            reveal(Seq::filter);
            assert(all.take(i as int + 1).drop_last() =~= all.take(i as int));
            assert(all.take(i as int + 1).last() == all[i as int]);
        }
        let hears = peer.agent_id != speaker.agent_id && peer.room_id == speaker.room_id && (
        peer.startup_id == speaker.startup_id || public);
        if hears {
            let ghost before = ids@.map_values(|s: String| s@);
            ids.push(peer.agent_id.clone());
            proof {
                assert(ids@.map_values(|s: String| s@) =~= before.push(peer.agent_id@));
                assert(all.take(i as int + 1).filter(f) == all.take(i as int).filter(f).push(*peer));
                assert(all.take(i as int + 1).filter(f).map_values(|a: AvatarView| a.agent_id@)
                    =~= all.take(i as int).filter(f).map_values(|a: AvatarView| a.agent_id@).push(peer.agent_id@));
            }
        } else {
            proof {
                assert(all.take(i as int + 1).filter(f) == all.take(i as int).filter(f));
            }
        }
        i += 1;
    }
    proof {
        assert(all.take(all.len() as int) =~= all);
    }
    ids
}

/// Chat stays in the speaker's room, and leaves the speaker's startup only
/// in a public room.
pub proof fn law_chat_is_room_scoped(avs: Seq<AvatarView>, speaker: AvatarView, k: int)
    requires
        0 <= k < avs.filter(listener_filter(speaker)).len(),
    ensures
        ({
            let p = avs.filter(listener_filter(speaker))[k];
            &&& p.room_id@ == speaker.room_id@
            &&& p.agent_id@ != speaker.agent_id@
            &&& !is_public_room_spec(speaker.room_id@) ==> p.startup_id@ == speaker.startup_id@
        }),
{
    avs.lemma_filter_pred(listener_filter(speaker), k);
}

/// What a change request does to a task under review.
#[derive(Debug, Clone, Copy, PartialEq, Eq, Structural)]
pub enum ReviewOutcome {
    /// The round limit is reached: the task escalates.
    Escalated(TaskStatus),
    /// Another review round: changes are requested.
    ChangesRequested(TaskStatus),
}

pub open spec fn review_outcome_spec(status: TaskStatus, review_round: u32) -> Option<ReviewOutcome> {
    if review_round >= MAX_REVIEW_ROUNDS {
        match next_spec(status, Transition::Escalate) {
            Some(s) => Some(ReviewOutcome::Escalated(s)),
            None => None,
        }
    } else {
        match next_spec(status, Transition::RequestChanges) {
            Some(s) => Some(ReviewOutcome::ChangesRequested(s)),
            None => None,
        }
    }
}

/// A change request on a task at `review_round`: past the round limit the
/// task escalates, otherwise it moves to `changes_requested`; either way
/// through the state machine, whose refusal is passed on.
pub fn review_outcome(status: TaskStatus, review_round: u32) -> (r: Result<ReviewOutcome, &'static str>)
    ensures
        match review_outcome_spec(status, review_round) {
            Some(o) => r == Ok::<ReviewOutcome, &'static str>(o),
            None => r is Err,
        },
{
    if review_round >= MAX_REVIEW_ROUNDS {
        match next(status, &Transition::Escalate) {
            Ok(s) => Ok(ReviewOutcome::Escalated(s)),
            Err(e) => Err(e),
        }
    } else {
        match next(status, &Transition::RequestChanges) {
            Ok(s) => Ok(ReviewOutcome::ChangesRequested(s)),
            Err(e) => Err(e),
        }
    }
}

/// Who may request changes: the task's manager (`"manager"`), or a peer
/// reviewing peer in the same startup who is not the assignee (`"peer"`).
pub fn review_actor(is_manager: bool, same_startup: bool, caller_is_assignee: bool, is_peer_reviewer: bool) -> (r: Option<&'static str>)
    ensures
        is_manager ==> (r matches Some(s) && s@ == "manager"@),
        !is_manager && same_startup && !caller_is_assignee && is_peer_reviewer ==> (r matches Some(s)
            && s@ == "peer"@),
        !is_manager && !(same_startup && !caller_is_assignee && is_peer_reviewer) ==> r is None,
{
    if is_manager {
        Some("manager")
    } else if same_startup && !caller_is_assignee && is_peer_reviewer {
        Some("peer")
    } else {
        None
    }
}

/// A new subtask: queued with the requested assignee when the parent's
/// assignee creates it, proposed and unassigned otherwise.
pub fn subtask_plan(is_manager: bool, requested_assignee: Option<String>) -> (r: (TaskStatus, Option<String>))
    ensures
        is_manager ==> r.0 == TaskStatus::Queued && r.1 == requested_assignee,
        !is_manager ==> r.0 == TaskStatus::Proposed && r.1 is None,
{
    let actor = if is_manager { Actor::Manager } else { Actor::NonManager };
    let status = match next(TaskStatus::Proposed, &Transition::SubtaskCreate { caller: actor }) {
        Ok(s) => s,
        Err(_) => TaskStatus::Proposed,
    };
    let assignee = if is_manager { requested_assignee } else { None };
    (status, assignee)
}

/// The MCP tools an agent can call.
#[derive(Debug, Clone, Copy, PartialEq, Eq, Structural)]
pub enum McpTool {
    MoveIntent,
    Speak,
    TaskDone,
    TaskFailed,
    SubtaskCreate,
    TaskAccept,
    AcceptProposal,
    RejectProposal,
    HypothesisState,
    TestRecord,
    HypothesisResolve,
    Verify,
    AskPeer,
    ObserveWorld,
    ReadArtifact,
    SkillUpsert,
    SkillList,
    SkillAttach,
    SkillDetach,
    SkillDelete,
    TaskSetPreference,
    SkillFileUpsert,
    SkillFileDelete,
    SkillListRevisions,
    SkillRevert,
    TaskSetBlocking,
}

/// The name a tool is called by.
pub open spec fn tool_name(t: McpTool) -> Seq<char> {
    match t {
        McpTool::MoveIntent => "move_intent"@,
        McpTool::Speak => "speak"@,
        McpTool::TaskDone => "task_done"@,
        McpTool::TaskFailed => "task_failed"@,
        McpTool::SubtaskCreate => "subtask_create"@,
        McpTool::TaskAccept => "task_accept"@,
        McpTool::AcceptProposal => "accept_proposal"@,
        McpTool::RejectProposal => "reject_proposal"@,
        McpTool::HypothesisState => "hypothesis_state"@,
        McpTool::TestRecord => "test_record"@,
        McpTool::HypothesisResolve => "hypothesis_resolve"@,
        McpTool::Verify => "verify"@,
        McpTool::AskPeer => "ask_peer"@,
        McpTool::ObserveWorld => "observe_world"@,
        McpTool::ReadArtifact => "read_artifact"@,
        McpTool::SkillUpsert => "skill_upsert"@,
        McpTool::SkillList => "skill_list"@,
        McpTool::SkillAttach => "skill_attach"@,
        McpTool::SkillDetach => "skill_detach"@,
        McpTool::SkillDelete => "skill_delete"@,
        McpTool::TaskSetPreference => "task_set_preference"@,
        McpTool::SkillFileUpsert => "skill_file_upsert"@,
        McpTool::SkillFileDelete => "skill_file_delete"@,
        McpTool::SkillListRevisions => "skill_list_revisions"@,
        McpTool::SkillRevert => "skill_revert"@,
        McpTool::TaskSetBlocking => "task_set_blocking"@,
    }
}

/// The tool called `name`, if there is one.
pub fn parse_tool(name: &str) -> (r: Option<McpTool>)
    ensures
        match r {
            Some(t) => tool_name(t) == name@,
            None => forall|t: McpTool| tool_name(t) != name@,
        },
{
    if str_eq(name, "move_intent") {
        Some(McpTool::MoveIntent)
    } else if str_eq(name, "speak") {
        Some(McpTool::Speak)
    } else if str_eq(name, "task_done") {
        Some(McpTool::TaskDone)
    } else if str_eq(name, "task_failed") {
        Some(McpTool::TaskFailed)
    } else if str_eq(name, "subtask_create") {
        Some(McpTool::SubtaskCreate)
    } else if str_eq(name, "task_accept") {
        Some(McpTool::TaskAccept)
    } else if str_eq(name, "accept_proposal") {
        Some(McpTool::AcceptProposal)
    } else if str_eq(name, "reject_proposal") {
        Some(McpTool::RejectProposal)
    } else if str_eq(name, "hypothesis_state") {
        Some(McpTool::HypothesisState)
    } else if str_eq(name, "test_record") {
        Some(McpTool::TestRecord)
    } else if str_eq(name, "hypothesis_resolve") {
        Some(McpTool::HypothesisResolve)
    } else if str_eq(name, "verify") {
        Some(McpTool::Verify)
    } else if str_eq(name, "ask_peer") {
        Some(McpTool::AskPeer)
    } else if str_eq(name, "observe_world") {
        Some(McpTool::ObserveWorld)
    } else if str_eq(name, "read_artifact") {
        Some(McpTool::ReadArtifact)
    } else if str_eq(name, "skill_upsert") {
        Some(McpTool::SkillUpsert)
    } else if str_eq(name, "skill_list") {
        Some(McpTool::SkillList)
    } else if str_eq(name, "skill_attach") {
        Some(McpTool::SkillAttach)
    } else if str_eq(name, "skill_detach") {
        Some(McpTool::SkillDetach)
    } else if str_eq(name, "skill_delete") {
        Some(McpTool::SkillDelete)
    } else if str_eq(name, "task_set_preference") {
        Some(McpTool::TaskSetPreference)
    } else if str_eq(name, "skill_file_upsert") {
        Some(McpTool::SkillFileUpsert)
    } else if str_eq(name, "skill_file_delete") {
        Some(McpTool::SkillFileDelete)
    } else if str_eq(name, "skill_list_revisions") {
        Some(McpTool::SkillListRevisions)
    } else if str_eq(name, "skill_revert") {
        Some(McpTool::SkillRevert)
    } else if str_eq(name, "task_set_blocking") {
        Some(McpTool::TaskSetBlocking)
    } else {
        None
    }
}

/// The exec name of a tool, as `tool_name` states it.
pub fn tool_name_str(t: McpTool) -> (s: &'static str)
    ensures
        s@ == tool_name(t),
{
    match t {
        McpTool::MoveIntent => "move_intent",
        McpTool::Speak => "speak",
        McpTool::TaskDone => "task_done",
        McpTool::TaskFailed => "task_failed",
        McpTool::SubtaskCreate => "subtask_create",
        McpTool::TaskAccept => "task_accept",
        McpTool::AcceptProposal => "accept_proposal",
        McpTool::RejectProposal => "reject_proposal",
        McpTool::HypothesisState => "hypothesis_state",
        McpTool::TestRecord => "test_record",
        McpTool::HypothesisResolve => "hypothesis_resolve",
        McpTool::Verify => "verify",
        McpTool::AskPeer => "ask_peer",
        McpTool::ObserveWorld => "observe_world",
        McpTool::ReadArtifact => "read_artifact",
        McpTool::SkillUpsert => "skill_upsert",
        McpTool::SkillList => "skill_list",
        McpTool::SkillAttach => "skill_attach",
        McpTool::SkillDetach => "skill_detach",
        McpTool::SkillDelete => "skill_delete",
        McpTool::SkillFileUpsert => "skill_file_upsert",
        McpTool::SkillFileDelete => "skill_file_delete",
        McpTool::SkillListRevisions => "skill_list_revisions",
        McpTool::TaskSetBlocking => "task_set_blocking",
        McpTool::SkillRevert => "skill_revert",
        McpTool::TaskSetPreference => "task_set_preference",
    }
}

/// What the catalogue says a tool does.
pub open spec fn tool_description(t: McpTool) -> Seq<char> {
    match t {
        McpTool::MoveIntent => "Walk the caller toward a target room (and optional tile)."@,
        McpTool::Speak => "Emit a chat or directive message visible to room peers."@,
        McpTool::TaskDone => "Submit a completed task with the canonical artifact path."@,
        McpTool::TaskFailed => "Report a task as failed with a reason."@,
        McpTool::SubtaskCreate => "Create a subtask under the caller's current task."@,
        McpTool::TaskAccept => "Manager accepts a completed task."@,
        McpTool::AcceptProposal => "Accept a peer-proposed subtask."@,
        McpTool::RejectProposal => "Reject a peer-proposed subtask."@,
        McpTool::HypothesisState => "Append an epistemic hypothesis to the task log."@,
        McpTool::TestRecord => "Append an epistemic test record to the task log."@,
        McpTool::HypothesisResolve => "Resolve an open hypothesis in the task log."@,
        McpTool::Verify => "Run a verifier (read_assert, lint_json, etc.) against an artifact."@,
        McpTool::AskPeer => "Ask a same-room peer a question (Phase 0 stub)."@,
        McpTool::ObserveWorld => "Snapshot the caller's room context."@,
        McpTool::ReadArtifact => "Read an artifact path inside the caller's sandbox."@,
        McpTool::SkillUpsert => "Author or update a workspace-scoped markdown skill."@,
        McpTool::SkillList => "List skills in the caller's startup (metadata only, no content)."@,
        McpTool::SkillAttach => "Attach a skill to an agent in the caller's startup."@,
        McpTool::SkillDetach => "Detach a skill from an agent. Idempotent."@,
        McpTool::SkillDelete => "Delete a skill. Cascades to all attachments."@,
        McpTool::SkillFileUpsert => "Upsert a text file attached to a skill. Materializes at `<workdir>/skills/<skill-name>/<name>`."@,
        McpTool::SkillFileDelete => "Delete a single file attached to a skill (by file name). Idempotent."@,
        McpTool::SkillListRevisions => "List historical revisions of a skill, newest first. Caller must own the skill's startup."@,
        McpTool::TaskSetBlocking => "Set per-task blocking dependency + deadline. Manager-or-assignee only; null clears either field. Editing deadline clears the overdue dedup so the new boundary fires fresh."@,
        McpTool::SkillRevert => "Revert a skill's content_md to a previous revision (by rev_seq). Appends a new revision pointing at the historical content; history stays linear."@,
        McpTool::TaskSetPreference => "Set per-task model routing override (preferred_backend / preferred_model). Manager-or-assignee only; null clears."@,
    }
}

/// The tools of a catalogue, in its order.
pub open spec fn tools_of(c: Seq<(McpTool, &'static str)>) -> Seq<McpTool> {
    c.map_values(|e: (McpTool, &'static str)| e.0)
}

/// The position of a tool in the catalogue.
pub open spec fn catalog_index(t: McpTool) -> int {
    match t {
        McpTool::MoveIntent => 0,
        McpTool::Speak => 1,
        McpTool::TaskDone => 2,
        McpTool::TaskFailed => 3,
        McpTool::SubtaskCreate => 4,
        McpTool::TaskAccept => 5,
        McpTool::AcceptProposal => 6,
        McpTool::RejectProposal => 7,
        McpTool::HypothesisState => 8,
        McpTool::TestRecord => 9,
        McpTool::HypothesisResolve => 10,
        McpTool::Verify => 11,
        McpTool::AskPeer => 12,
        McpTool::ObserveWorld => 13,
        McpTool::ReadArtifact => 14,
        McpTool::SkillUpsert => 15,
        McpTool::SkillList => 16,
        McpTool::SkillAttach => 17,
        McpTool::SkillDetach => 18,
        McpTool::SkillDelete => 19,
        McpTool::SkillFileUpsert => 20,
        McpTool::SkillFileDelete => 21,
        McpTool::SkillListRevisions => 22,
        McpTool::TaskSetBlocking => 23,
        McpTool::SkillRevert => 24,
        McpTool::TaskSetPreference => 25,
    }
}

/// The tool catalogue: every tool that `parse_tool` knows, once each,
/// `move_intent` first, each with its description. The input schemas are
/// the transport's business.
pub fn tool_catalog() -> (c: Vec<(McpTool, &'static str)>)
    ensures
        c@.len() == 26,
        c@[0].0 == McpTool::MoveIntent,
        forall|i: int| 0 <= i < c@.len() ==> catalog_index(#[trigger] c@[i].0) == i,
        forall|i: int| 0 <= i < c@.len() ==> (#[trigger] c@[i]).1@ == tool_description(c@[i].0),
        forall|t: McpTool| #![trigger catalog_index(t)] 0 <= catalog_index(t) < c@.len() && c@[catalog_index(t)].0 == t,
        forall|t: McpTool| #[trigger] tools_of(c@).contains(t),
        tools_of(c@).no_duplicates(),
{
    let mut c: Vec<(McpTool, &'static str)> = Vec::new();
    c.push((McpTool::MoveIntent, "Walk the caller toward a target room (and optional tile)."));
    c.push((McpTool::Speak, "Emit a chat or directive message visible to room peers."));
    c.push((McpTool::TaskDone, "Submit a completed task with the canonical artifact path."));
    c.push((McpTool::TaskFailed, "Report a task as failed with a reason."));
    c.push((McpTool::SubtaskCreate, "Create a subtask under the caller's current task."));
    c.push((McpTool::TaskAccept, "Manager accepts a completed task."));
    c.push((McpTool::AcceptProposal, "Accept a peer-proposed subtask."));
    c.push((McpTool::RejectProposal, "Reject a peer-proposed subtask."));
    c.push((McpTool::HypothesisState, "Append an epistemic hypothesis to the task log."));
    c.push((McpTool::TestRecord, "Append an epistemic test record to the task log."));
    c.push((McpTool::HypothesisResolve, "Resolve an open hypothesis in the task log."));
    c.push((McpTool::Verify, "Run a verifier (read_assert, lint_json, etc.) against an artifact."));
    c.push((McpTool::AskPeer, "Ask a same-room peer a question (Phase 0 stub)."));
    c.push((McpTool::ObserveWorld, "Snapshot the caller's room context."));
    c.push((McpTool::ReadArtifact, "Read an artifact path inside the caller's sandbox."));
    c.push((McpTool::SkillUpsert, "Author or update a workspace-scoped markdown skill."));
    c.push((McpTool::SkillList, "List skills in the caller's startup (metadata only, no content)."));
    c.push((McpTool::SkillAttach, "Attach a skill to an agent in the caller's startup."));
    c.push((McpTool::SkillDetach, "Detach a skill from an agent. Idempotent."));
    c.push((McpTool::SkillDelete, "Delete a skill. Cascades to all attachments."));
    c.push((McpTool::SkillFileUpsert, "Upsert a text file attached to a skill. Materializes at `<workdir>/skills/<skill-name>/<name>`."));
    c.push((McpTool::SkillFileDelete, "Delete a single file attached to a skill (by file name). Idempotent."));
    c.push((McpTool::SkillListRevisions, "List historical revisions of a skill, newest first. Caller must own the skill's startup."));
    c.push((McpTool::TaskSetBlocking, "Set per-task blocking dependency + deadline. Manager-or-assignee only; null clears either field. Editing deadline clears the overdue dedup so the new boundary fires fresh."));
    c.push((McpTool::SkillRevert, "Revert a skill's content_md to a previous revision (by rev_seq). Appends a new revision pointing at the historical content; history stays linear."));
    c.push((McpTool::TaskSetPreference, "Set per-task model routing override (preferred_backend / preferred_model). Manager-or-assignee only; null clears."));
    proof {
        assert(c@[0].0 == McpTool::MoveIntent);
        assert(c@[1].0 == McpTool::Speak);
        assert(c@[2].0 == McpTool::TaskDone);
        assert(c@[3].0 == McpTool::TaskFailed);
        assert(c@[4].0 == McpTool::SubtaskCreate);
        assert(c@[5].0 == McpTool::TaskAccept);
        assert(c@[6].0 == McpTool::AcceptProposal);
        assert(c@[7].0 == McpTool::RejectProposal);
        assert(c@[8].0 == McpTool::HypothesisState);
        assert(c@[9].0 == McpTool::TestRecord);
        assert(c@[10].0 == McpTool::HypothesisResolve);
        assert(c@[11].0 == McpTool::Verify);
        assert(c@[12].0 == McpTool::AskPeer);
        assert(c@[13].0 == McpTool::ObserveWorld);
        assert(c@[14].0 == McpTool::ReadArtifact);
        assert(c@[15].0 == McpTool::SkillUpsert);
        assert(c@[16].0 == McpTool::SkillList);
        assert(c@[17].0 == McpTool::SkillAttach);
        assert(c@[18].0 == McpTool::SkillDetach);
        assert(c@[19].0 == McpTool::SkillDelete);
        assert(c@[20].0 == McpTool::SkillFileUpsert);
        assert(c@[21].0 == McpTool::SkillFileDelete);
        assert(c@[22].0 == McpTool::SkillListRevisions);
        assert(c@[23].0 == McpTool::TaskSetBlocking);
        assert(c@[24].0 == McpTool::SkillRevert);
        assert(c@[25].0 == McpTool::TaskSetPreference);
        assert(c@[0].1@ == tool_description(McpTool::MoveIntent));
        assert(c@[1].1@ == tool_description(McpTool::Speak));
        assert(c@[2].1@ == tool_description(McpTool::TaskDone));
        assert(c@[3].1@ == tool_description(McpTool::TaskFailed));
        assert(c@[4].1@ == tool_description(McpTool::SubtaskCreate));
        assert(c@[5].1@ == tool_description(McpTool::TaskAccept));
        assert(c@[6].1@ == tool_description(McpTool::AcceptProposal));
        assert(c@[7].1@ == tool_description(McpTool::RejectProposal));
        assert(c@[8].1@ == tool_description(McpTool::HypothesisState));
        assert(c@[9].1@ == tool_description(McpTool::TestRecord));
        assert(c@[10].1@ == tool_description(McpTool::HypothesisResolve));
        assert(c@[11].1@ == tool_description(McpTool::Verify));
        assert(c@[12].1@ == tool_description(McpTool::AskPeer));
        assert(c@[13].1@ == tool_description(McpTool::ObserveWorld));
        assert(c@[14].1@ == tool_description(McpTool::ReadArtifact));
        assert(c@[15].1@ == tool_description(McpTool::SkillUpsert));
        assert(c@[16].1@ == tool_description(McpTool::SkillList));
        assert(c@[17].1@ == tool_description(McpTool::SkillAttach));
        assert(c@[18].1@ == tool_description(McpTool::SkillDetach));
        assert(c@[19].1@ == tool_description(McpTool::SkillDelete));
        assert(c@[20].1@ == tool_description(McpTool::SkillFileUpsert));
        assert(c@[21].1@ == tool_description(McpTool::SkillFileDelete));
        assert(c@[22].1@ == tool_description(McpTool::SkillListRevisions));
        assert(c@[23].1@ == tool_description(McpTool::TaskSetBlocking));
        assert(c@[24].1@ == tool_description(McpTool::SkillRevert));
        assert(c@[25].1@ == tool_description(McpTool::TaskSetPreference));
        assert forall|i: int| 0 <= i < c@.len() implies (#[trigger] c@[i]).1@ == tool_description(c@[i].0) by {
            assert(i == 0 || i == 1 || i == 2 || i == 3 || i == 4 || i == 5 || i == 6 || i == 7 || i == 8 || i == 9 || i == 10 || i == 11 || i == 12 || i == 13 || i == 14 || i == 15 || i == 16 || i == 17 || i == 18 || i == 19 || i == 20 || i == 21 || i == 22 || i == 23 || i == 24 || i == 25);
        }
        assert forall|i: int| 0 <= i < c@.len() implies catalog_index(#[trigger] c@[i].0) == i by {
            assert(i == 0 || i == 1 || i == 2 || i == 3 || i == 4 || i == 5 || i == 6 || i == 7 || i == 8 || i == 9 || i == 10 || i == 11 || i == 12 || i == 13 || i == 14 || i == 15 || i == 16 || i == 17 || i == 18 || i == 19 || i == 20 || i == 21 || i == 22 || i == 23 || i == 24 || i == 25);
        }
        assert forall|t: McpTool| #![trigger catalog_index(t)] 0 <= catalog_index(t) < c@.len() && c@[catalog_index(t)].0 == t by {
            match t {
                McpTool::MoveIntent => {},
                McpTool::Speak => {},
                McpTool::TaskDone => {},
                McpTool::TaskFailed => {},
                McpTool::SubtaskCreate => {},
                McpTool::TaskAccept => {},
                McpTool::AcceptProposal => {},
                McpTool::RejectProposal => {},
                McpTool::HypothesisState => {},
                McpTool::TestRecord => {},
                McpTool::HypothesisResolve => {},
                McpTool::Verify => {},
                McpTool::AskPeer => {},
                McpTool::ObserveWorld => {},
                McpTool::ReadArtifact => {},
                McpTool::SkillUpsert => {},
                McpTool::SkillList => {},
                McpTool::SkillAttach => {},
                McpTool::SkillDetach => {},
                McpTool::SkillDelete => {},
                McpTool::SkillFileUpsert => {},
                McpTool::SkillFileDelete => {},
                McpTool::SkillListRevisions => {},
                McpTool::TaskSetBlocking => {},
                McpTool::SkillRevert => {},
                McpTool::TaskSetPreference => {},
            }
        }
        assert forall|t: McpTool| #[trigger] tools_of(c@).contains(t) by {
            assert(tools_of(c@)[catalog_index(t)] == t);
        }
        assert forall|i: int, j: int| 0 <= i < tools_of(c@).len() && 0 <= j < tools_of(c@).len() && i != j
            implies #[trigger] tools_of(c@)[i] != #[trigger] tools_of(c@)[j] by {
            assert(catalog_index(c@[i].0) == i && catalog_index(c@[j].0) == j);
        }
    }
    c
}

/// An error reply: (code, message).
pub type HandlerError = (String, String);

pub open spec fn err_view(e: HandlerError) -> (Seq<char>, Seq<char>) {
    (e.0@, e.1@)
}

fn handler_error(code: &str, message: &str) -> (e: HandlerError)
    ensures
        err_view(e) == (code@, message@),
{
    (code.to_owned(), message.to_owned())
}

/// The reply to a call of an unknown tool.
pub fn unknown_tool_error(tool: &str) -> (e: HandlerError)
    ensures
        err_view(e) == ("unknown_tool"@, "no handler for tool: "@ + tool@),
{
    let mut m = "no handler for tool: ".to_owned();
    m.append(tool);
    ("unknown_tool".to_owned(), m)
}

/// The task row the handlers decide on.
#[derive(Debug, Clone)]
pub struct TaskRow {
    pub status: TaskStatus,
    pub startup_id: String,
    pub parent_id: Option<String>,
    pub assignee_agent_id: Option<String>,
    pub review_round: u32,
    pub artifact_path: Option<String>,
}

pub open spec fn is_assignee(task: TaskRow, agent_id: Seq<char>) -> bool {
    task.assignee_agent_id matches Some(a) && a@ == agent_id
}

fn assigned_to(task: &TaskRow, agent_id: &str) -> (r: bool)
    ensures
        r == is_assignee(*task, agent_id@),
{
    match &task.assignee_agent_id {
        Some(a) => str_eq(a.as_str(), agent_id),
        None => false,
    }
}

/// Where the manager of a task is recorded: for a subtask, the parent
/// task's assignee; for a root task, the assignee's recorded manager; a
/// root task without an assignee has no manager.
#[derive(Debug, Clone, PartialEq, Eq)]
pub enum ManagerSource {
    /// Look up the assignee of this parent task.
    ParentAssignee(String),
    /// Look up the recorded manager of this agent.
    AssigneeManager(String),
    NoManager,
}

/// Which row names the manager of `task`.
pub fn manager_source(task: &TaskRow) -> (r: ManagerSource)
    ensures
        match task.parent_id {
            Some(p) => r == ManagerSource::ParentAssignee(p),
            None => match task.assignee_agent_id {
                Some(a) => r == ManagerSource::AssigneeManager(a),
                None => r == ManagerSource::NoManager,
            },
        },
{
    match &task.parent_id {
        Some(p) => ManagerSource::ParentAssignee(p.clone()),
        None => match &task.assignee_agent_id {
            Some(a) => ManagerSource::AssigneeManager(a.clone()),
            None => ManagerSource::NoManager,
        },
    }
}

/// The caller is the manager the looked-up row names.
pub fn is_recorded_manager(recorded: Option<&str>, caller: &AvatarView) -> (r: bool)
    ensures
        r == (recorded matches Some(m) && m@ == caller.agent_id@),
{
    match recorded {
        Some(m) => str_eq(m, caller.agent_id.as_str()),
        None => false,
    }
}

/// The check of an assignee a manager names, given the assignee's startup
/// if the agent exists: unknown agents and agents of another startup are
/// refused.
pub fn named_assignee_gate(assignee_startup: Option<&str>, caller: &AvatarView) -> (r: Result<(), HandlerError>)
    ensures
        assignee_startup is None ==> (r matches Err(e) && err_view(e) == ("unknown_assignee"@, "no such agent"@)),
        (assignee_startup matches Some(s) && s@ != caller.startup_id@) ==> (r matches Err(e) && err_view(e) == (
            "cross_startup"@,
            "assignee in different startup"@,
        )),
        (assignee_startup matches Some(s) && s@ == caller.startup_id@) ==> r is Ok,
{
    match assignee_startup {
        None => Err(handler_error("unknown_assignee", "no such agent")),
        Some(s) => {
            if str_eq(s, caller.startup_id.as_str()) {
                Ok(())
            } else {
                Err(handler_error("cross_startup", "assignee in different startup"))
            }
        },
    }
}

/// Where a `move_intent` goes, from its optional room and (already read)
/// tile: both as given; a room alone means its centre (an unknown room is
/// refused); a tile alone stays in the caller's room; neither is refused.
pub fn move_target(
    layout: &crate::seed::TownLayout,
    caller: &AvatarView,
    target_room: Option<&str>,
    target_tile: Option<(i32, i32)>,
) -> (r: Result<(String, i32, i32), HandlerError>)
    requires
        target_room matches Some(q) ==> (crate::seed::room_spec(layout.rooms@, q@) matches Some(rd)
            ==> crate::scheduler::center_fits(rd.bounds)),
    ensures
        match (target_room, target_tile) {
            (Some(q), Some(t)) => r matches Ok(v) && v.0@ == q@ && v.1 == t.0 && v.2 == t.1,
            (Some(q), None) => match crate::seed::room_spec(layout.rooms@, q@) {
                Some(rd) => r matches Ok(v) && v.0@ == q@ && v.1 == crate::scheduler::center_of(rd.bounds).0
                    && v.2 == crate::scheduler::center_of(rd.bounds).1,
                None => r matches Err(e) && err_view(e) == ("bad_args"@, "unknown room: "@ + q@),
            },
            (None, Some(t)) => r matches Ok(v) && v.0@ == caller.room_id@ && v.1 == t.0 && v.2 == t.1,
            (None, None) => r matches Err(e) && err_view(e) == (
                "bad_args"@,
                "must provide target_room or target_tile"@,
            ),
        },
{
    match (target_room, target_tile) {
        (Some(q), Some(t)) => Ok((q.to_owned(), t.0, t.1)),
        (Some(q), None) => match crate::scheduler::pick_room_center(layout, q) {
            Some((cx, cy)) => Ok((q.to_owned(), cx, cy)),
            None => {
                let mut m = "unknown room: ".to_owned();
                m.append(q);
                Err(("bad_args".to_owned(), m))
            },
        },
        (None, Some(t)) => Ok((caller.room_id.clone(), t.0, t.1)),
        (None, None) => Err(handler_error("bad_args", "must provide target_room or target_tile")),
    }
}

/// The same-startup gate on a task: a task of another startup is refused
/// with `cross_startup`.
pub fn same_startup_gate(task: &TaskRow, caller: &AvatarView) -> (r: Result<(), HandlerError>)
    ensures
        task.startup_id@ == caller.startup_id@ ==> r is Ok,
        task.startup_id@ != caller.startup_id@ ==> (r matches Err(e) && err_view(e) == (
            "cross_startup"@,
            "task belongs to another startup"@,
        )),
{
    if str_eq(task.startup_id.as_str(), caller.startup_id.as_str()) {
        Ok(())
    } else {
        Err(handler_error("cross_startup", "task belongs to another startup"))
    }
}

/// The check of the assignee-only tools: the same-startup check, then
/// `no_permission` with `denial` unless the caller is the assignee.
pub fn assignee_gate(task: &TaskRow, caller: &AvatarView, denial: &str) -> (r: Result<(), HandlerError>)
    ensures
        task.startup_id@ != caller.startup_id@ ==> (r matches Err(e) && err_view(e) == (
            "cross_startup"@,
            "task belongs to another startup"@,
        )),
        task.startup_id@ == caller.startup_id@ && !is_assignee(*task, caller.agent_id@) ==> (r matches Err(
            e,
        ) && err_view(e) == ("no_permission"@, denial@)),
        task.startup_id@ == caller.startup_id@ && is_assignee(*task, caller.agent_id@) ==> r is Ok,
{
    same_startup_gate(task, caller)?;
    if !assigned_to(task, caller.agent_id.as_str()) {
        return Err(handler_error("no_permission", denial));
    }
    Ok(())
}

/// The check of the tools open to the task's manager and its assignee.
pub fn manager_or_assignee_gate(task: &TaskRow, caller: &AvatarView, is_manager: bool, denial: &str) -> (r:
    Result<(), HandlerError>)
    ensures
        is_manager || is_assignee(*task, caller.agent_id@) ==> r is Ok,
        !is_manager && !is_assignee(*task, caller.agent_id@) ==> (r matches Err(e) && err_view(e) == (
            "no_permission"@,
            denial@,
        )),
{
    if is_manager || assigned_to(task, caller.agent_id.as_str()) {
        Ok(())
    } else {
        Err(handler_error("no_permission", denial))
    }
}

/// A transition of the task state machine, its refusal turned into the
/// `illegal_transition` reply.
pub fn transition(status: TaskStatus, t: &Transition) -> (r: Result<TaskStatus, HandlerError>)
    ensures
        match next_spec(status, *t) {
            Some(s) => r == Ok::<TaskStatus, HandlerError>(s),
            None => r matches Err(e) && err_view(e) == ("illegal_transition"@,
                crate::task_sm::ILLEGAL_TRANSITION@),
        },
{
    match next(status, t) {
        Ok(s) => Ok(s),
        Err(reason) => Err(handler_error("illegal_transition", reason)),
    }
}

/// The artifact path check of `task_done`: only the canonical path is
/// accepted.
pub fn check_artifact_path(startup_id: &str, task_id: &str, artifact_path: &str) -> (r: Result<(), HandlerError>)
    ensures
        artifact_path@ == canonical_path_text(startup_id@, task_id@) ==> r is Ok,
        artifact_path@ != canonical_path_text(startup_id@, task_id@) ==> (r matches Err(e) && err_view(e)
            == ("bad_artifact_path"@, "expected "@ + canonical_path_text(startup_id@, task_id@) + ", got "@
            + artifact_path@)),
{
    let canonical = canonical_artifact_path(startup_id, task_id);
    if str_eq(artifact_path, canonical.as_str()) {
        return Ok(());
    }
    let mut m = "expected ".to_owned();
    m.append(canonical.as_str());
    m.append(", got ");
    m.append(artifact_path);
    Err(("bad_artifact_path".to_owned(), m))
}

/// The error reply of a refused move, `None` for a started one.
pub fn move_refusal(r: StartMoveResult) -> (e: Option<(&'static str, &'static str)>)
    ensures
        match r {
            StartMoveResult::Accepted => e is None,
            StartMoveResult::NoPath => e matches Some(p) && p.0@ == "no_path"@ && p.1@ == "no path to target"@,
            StartMoveResult::PermissionDenied => e matches Some(p) && p.0@ == "no_permission"@ && p.1@
                == "cannot enter target room"@,
            StartMoveResult::NoSuchAgent => e matches Some(p) && p.0@ == "unknown_agent"@ && p.1@
                == "agent not found"@,
        },
{
    match r {
        StartMoveResult::Accepted => None,
        StartMoveResult::NoPath => Some(("no_path", "no path to target")),
        StartMoveResult::PermissionDenied => Some(("no_permission", "cannot enter target room")),
        StartMoveResult::NoSuchAgent => Some(("unknown_agent", "agent not found")),
    }
}

/// What a `speak` call is.
#[derive(Debug, Clone, Copy, PartialEq, Eq, Structural)]
pub enum SpeakKind {
    Chat,
    Directive,
}

/// The kind of a `speak` call: `chat` (the default) or `directive`, which
/// needs a recipient.
pub fn speak_kind(kind: Option<&str>, to_agent_id: Option<&str>) -> (r: Result<SpeakKind, HandlerError>)
    ensures
        match kind {
            None => r == Ok::<SpeakKind, HandlerError>(SpeakKind::Chat),
            Some(k) => if k@ == "chat"@ {
                r == Ok::<SpeakKind, HandlerError>(SpeakKind::Chat)
            } else if k@ == "directive"@ {
                if to_agent_id is Some {
                    r == Ok::<SpeakKind, HandlerError>(SpeakKind::Directive)
                } else {
                    r matches Err(e) && err_view(e) == ("bad_args"@, "directive requires to_agent_id"@)
                }
            } else {
                r matches Err(e) && err_view(e) == ("bad_args"@, "unknown speak kind: "@ + k@)
            },
        },
{
    let k = match kind {
        None => return Ok(SpeakKind::Chat),
        Some(k) => k,
    };
    if str_eq(k, "chat") {
        return Ok(SpeakKind::Chat);
    }
    if str_eq(k, "directive") {
        if to_agent_id.is_none() {
            return Err(handler_error("bad_args", "directive requires to_agent_id"));
        }
        return Ok(SpeakKind::Directive);
    }
    let mut m = "unknown speak kind: ".to_owned();
    m.append(k);
    Err(("bad_args".to_owned(), m))
}

/// The check of a directive: the recipient must be of the caller's startup
/// and managed by the caller.
pub fn directive_gate(recipient_startup: &str, recipient_manager: Option<&str>, caller: &AvatarView) -> (r:
    Result<(), HandlerError>)
    ensures
        recipient_startup@ != caller.startup_id@ ==> (r matches Err(e) && err_view(e) == (
            "cross_startup"@,
            "directive cannot cross startups"@,
        )),
        recipient_startup@ == caller.startup_id@ && !(recipient_manager matches Some(m) && m@
            == caller.agent_id@) ==> (r matches Err(e) && err_view(e) == (
            "no_permission"@,
            "directive requires manager-of-recipient"@,
        )),
        recipient_startup@ == caller.startup_id@ && (recipient_manager matches Some(m) && m@
            == caller.agent_id@) ==> r is Ok,
{
    if !str_eq(recipient_startup, caller.startup_id.as_str()) {
        return Err(handler_error("cross_startup", "directive cannot cross startups"));
    }
    let managed = match recipient_manager {
        Some(m) => str_eq(m, caller.agent_id.as_str()),
        None => false,
    };
    if !managed {
        return Err(handler_error("no_permission", "directive requires manager-of-recipient"));
    }
    Ok(())
}

/// The check of a change request once the startup check passed: the
/// caller acts as manager, or as a reviewing peer in the same startup who is
/// not the assignee; the task must have an assignee. The result is the
/// role recorded in the audit trail.
pub fn change_request_gate(task: &TaskRow, caller: &AvatarView, is_manager: bool, is_peer_reviewer: bool) -> (r:
    Result<&'static str, HandlerError>)
    ensures
        is_manager ==> match task.assignee_agent_id {
            Some(_) => r matches Ok(a) && a@ == "manager"@,
            None => r matches Err(e) && err_view(e) == ("no_assignee"@, "task has no assignee"@),
        },
        !is_manager && !(task.startup_id@ == caller.startup_id@ && !is_assignee(*task, caller.agent_id@)
            && is_peer_reviewer) ==> (r matches Err(e) && err_view(e) == ("no_permission"@,
            "change requests require the manager or a reviewing peer"@)),
        !is_manager && (task.startup_id@ == caller.startup_id@ && !is_assignee(*task, caller.agent_id@)
            && is_peer_reviewer) ==> match task.assignee_agent_id {
            Some(_) => r matches Ok(a) && a@ == "peer"@,
            None => r matches Err(e) && err_view(e) == ("no_assignee"@, "task has no assignee"@),
        },
{
    let same = str_eq(task.startup_id.as_str(), caller.startup_id.as_str());
    let not_self = !assigned_to(task, caller.agent_id.as_str());
    let actor = match review_actor(is_manager, same, !not_self, is_peer_reviewer) {
        Some(a) => a,
        None => {
            return Err(handler_error("no_permission", "change requests require the manager or a reviewing peer"));
        },
    };
    if task.assignee_agent_id.is_none() {
        return Err(handler_error("no_assignee", "task has no assignee"));
    }
    Ok(actor)
}

/// The reason given when a change request escalates a task.
pub const MAX_ROUNDS_REASON: &'static str = "max_review_rounds_exceeded";

/// Whether the caller may send a task back for changes: as the task's
/// manager, or as a reviewing peer of the same startup who is not the
/// assignee.
pub open spec fn may_request_changes(task: TaskRow, caller: AvatarView, is_manager: bool, is_peer_reviewer: bool) -> bool {
    is_manager || (task.startup_id@ == caller.startup_id@ && !is_assignee(task, caller.agent_id@)
        && is_peer_reviewer)
}

/// What a granted change request does to the task.
#[derive(Debug)]
pub enum ChangeRequest {
    /// The round limit is reached: the task moves to `status`, keeps its
    /// round, and no directive is sent; `reason` is the reply's and the
    /// audit trail's reason.
    Escalate { status: TaskStatus, review_round: u32, reason: &'static str },
    /// Another review round: the task moves to `status`, its round becomes
    /// `review_round`, and the feedback goes as a directive to
    /// `to_agent_id`; `actor` is the role recorded in the audit trail.
    Revise { status: TaskStatus, review_round: u32, to_agent_id: String, actor: &'static str },
}

/// The decision on a change request with `feedback` on `task`: the body
/// length check, the startup check, the role and assignee checks, then
/// escalation once the task has had `MAX_REVIEW_ROUNDS` rounds, or another
/// round in `changes_requested`; a status the state machine refuses gives
/// `illegal_transition`.
pub fn change_request_decision(
    task: &TaskRow,
    caller: &AvatarView,
    is_manager: bool,
    is_peer_reviewer: bool,
    feedback: &str,
) -> (r: Result<ChangeRequest, HandlerError>)
    ensures
        feedback@.len() > MAX_BODY_LENGTH ==> (r matches Err(e) && e.0@ == "body_too_long"@),
        feedback@.len() <= MAX_BODY_LENGTH && task.startup_id@ != caller.startup_id@ ==> (r matches Err(e)
            && err_view(e) == ("cross_startup"@, "task belongs to another startup"@)),
        feedback@.len() <= MAX_BODY_LENGTH && task.startup_id@ == caller.startup_id@ && !may_request_changes(
            *task,
            *caller,
            is_manager,
            is_peer_reviewer,
        ) ==> (r matches Err(e) && err_view(e) == ("no_permission"@,
            "change requests require the manager or a reviewing peer"@)),
        feedback@.len() <= MAX_BODY_LENGTH && task.startup_id@ == caller.startup_id@ && may_request_changes(
            *task,
            *caller,
            is_manager,
            is_peer_reviewer,
        ) ==> match task.assignee_agent_id {
            None => r matches Err(e) && err_view(e) == ("no_assignee"@, "task has no assignee"@),
            Some(a) => if task.review_round >= MAX_REVIEW_ROUNDS {
                match next_spec(task.status, Transition::Escalate) {
                    Some(s) => r matches Ok(ChangeRequest::Escalate { status, review_round, reason }) && status
                        == s && review_round == task.review_round && reason@ == MAX_ROUNDS_REASON@,
                    None => r matches Err(e) && err_view(e) == ("illegal_transition"@,
                        crate::task_sm::ILLEGAL_TRANSITION@),
                }
            } else {
                match next_spec(task.status, Transition::RequestChanges) {
                    Some(s) => r matches Ok(ChangeRequest::Revise { status, review_round, to_agent_id, actor })
                        && status == s && review_round == task.review_round + 1 && to_agent_id@ == a@ && actor@
                        == (if is_manager { "manager"@ } else { "peer"@ }),
                    None => r matches Err(e) && err_view(e) == ("illegal_transition"@,
                        crate::task_sm::ILLEGAL_TRANSITION@),
                }
            },
        },
{
    check_body_length("feedback", feedback)?;
    same_startup_gate(task, caller)?;
    let actor = change_request_gate(task, caller, is_manager, is_peer_reviewer)?;
    let to_agent_id = match &task.assignee_agent_id {
        Some(a) => a.clone(),
        None => {
            return Err(handler_error("no_assignee", "task has no assignee"));
        },
    };
    if task.review_round >= MAX_REVIEW_ROUNDS {
        let status = transition(task.status, &Transition::Escalate)?;
        Ok(ChangeRequest::Escalate { status, review_round: task.review_round, reason: MAX_ROUNDS_REASON })
    } else {
        let status = transition(task.status, &Transition::RequestChanges)?;
        Ok(ChangeRequest::Revise { status, review_round: task.review_round + 1, to_agent_id, actor })
    }
}

/// A requested change of an optional field: absent leaves it, present sets
/// it (to a value, or clears it).
pub type FieldChange<T> = Option<Option<T>>;

/// The check of the two-field setters: at least one field must change.
pub fn require_some_change<A, B>(a: &FieldChange<A>, b: &FieldChange<B>, message: &str) -> (r: Result<(), HandlerError>)
    ensures
        a is Some || b is Some ==> r is Ok,
        a is None && b is None ==> (r matches Err(e) && err_view(e) == ("bad_args"@, message@)),
{
    if a.is_none() && b.is_none() {
        return Err(handler_error("bad_args", message));
    }
    Ok(())
}

/// A task may not block on itself.
pub fn check_not_self_blocking(task_id: &str, blocked_on: &FieldChange<String>) -> (r: Result<(), HandlerError>)
    ensures
        (blocked_on matches Some(Some(b)) && b@ == task_id@) ==> (r matches Err(e) && err_view(e) == (
            "self_blocking"@,
            "a task cannot block on itself"@,
        )),
        !(blocked_on matches Some(Some(b)) && b@ == task_id@) ==> r is Ok,
{
    match blocked_on {
        Some(Some(b)) => {
            if str_eq(b.as_str(), task_id) {
                return Err(handler_error("self_blocking", "a task cannot block on itself"));
            }
            Ok(())
        },
        _ => Ok(()),
    }
}

/// How many revisions a listing returns: the requested number (20 when
/// none is given), at most 100.
pub fn revision_limit(requested: Option<u64>) -> (n: usize)
    ensures
        n == match requested {
            Some(k) => if k < 100 { k } else { 100 },
            None => 20,
        },
{
    let k = match requested {
        Some(k) => k,
        None => 20,
    };
    if k < 100 { k as usize } else { 100 }
}

/// A `verify` method.
#[derive(Debug, Clone, Copy, PartialEq, Eq, Structural)]
pub enum VerifyMethod {
    /// Read a workspace file and test that it holds a string.
    ReadAssert,
    /// Read a workspace file and test that it is JSON.
    LintJson,
    /// Accepted and answered as deferred.
    Deferred,
}

/// The `verify` method called `method`; an unknown one is refused.
pub fn parse_verify_method(method: &str) -> (r: Result<VerifyMethod, HandlerError>)
    ensures
        if method@ == "read_assert"@ {
            r == Ok::<VerifyMethod, HandlerError>(VerifyMethod::ReadAssert)
        } else if method@ == "lint_json"@ {
            r == Ok::<VerifyMethod, HandlerError>(VerifyMethod::LintJson)
        } else if method@ == "lint_markdown"@ || method@ == "lint_typescript"@ {
            r == Ok::<VerifyMethod, HandlerError>(VerifyMethod::Deferred)
        } else {
            r matches Err(e) && err_view(e) == ("bad_args"@, "unknown verify method: "@ + method@)
        },
{
    if str_eq(method, "read_assert") {
        return Ok(VerifyMethod::ReadAssert);
    }
    if str_eq(method, "lint_json") {
        return Ok(VerifyMethod::LintJson);
    }
    if str_eq(method, "lint_markdown") || str_eq(method, "lint_typescript") {
        return Ok(VerifyMethod::Deferred);
    }
    let mut m = "unknown verify method: ".to_owned();
    m.append(method);
    Err(("bad_args".to_owned(), m))
}

/// An `observe_world` query.
#[derive(Debug, Clone, Copy, PartialEq, Eq, Structural)]
pub enum ObserveQuery {
    PeersInRoom,
    MyPosition,
    BudgetRemaining,
}

/// The `observe_world` query called `query`; an unknown one is refused.
pub fn parse_observe_query(query: &str) -> (r: Result<ObserveQuery, HandlerError>)
    ensures
        if query@ == "peers_in_room"@ {
            r == Ok::<ObserveQuery, HandlerError>(ObserveQuery::PeersInRoom)
        } else if query@ == "my_position"@ {
            r == Ok::<ObserveQuery, HandlerError>(ObserveQuery::MyPosition)
        } else if query@ == "budget_remaining"@ {
            r == Ok::<ObserveQuery, HandlerError>(ObserveQuery::BudgetRemaining)
        } else {
            r matches Err(e) && err_view(e) == ("bad_args"@, "unknown query: "@ + query@)
        },
{
    if str_eq(query, "peers_in_room") {
        return Ok(ObserveQuery::PeersInRoom);
    }
    if str_eq(query, "my_position") {
        return Ok(ObserveQuery::MyPosition);
    }
    if str_eq(query, "budget_remaining") {
        return Ok(ObserveQuery::BudgetRemaining);
    }
    let mut m = "unknown query: ".to_owned();
    m.append(query);
    Err(("bad_args".to_owned(), m))
}

/// `peer` is seen by `caller` in `peers_in_room`: another avatar of the
/// caller's startup in the caller's room.
pub open spec fn visible_peer(caller: AvatarView) -> spec_fn(AvatarView) -> bool {
    |a: AvatarView| a.room_id@ == caller.room_id@ && a.agent_id@ != caller.agent_id@ && a.startup_id@
        == caller.startup_id@
}

/// The peers a caller sees in its room, as (agent id, role), in world
/// order.
pub fn peers_in_room(world: &WorldView, caller: &AvatarView) -> (peers: Vec<(String, String)>)
    ensures
        peers@.map_values(|p: (String, String)| (p.0@, p.1@)) == world.avatars@.filter(visible_peer(*caller)).map_values(
            |a: AvatarView| (a.agent_id@, a.role@),
        ),
{
    let ghost all = world.avatars@;
    let ghost f = visible_peer(*caller);
    let mut peers: Vec<(String, String)> = Vec::new();
    let mut i: usize = 0;
    proof {
        reveal(Seq::filter);
        assert(all.take(0).filter(f) =~= Seq::<AvatarView>::empty());
        assert(peers@.map_values(|p: (String, String)| (p.0@, p.1@)) =~= Seq::<(Seq<char>, Seq<char>)>::empty());
    }
    while i < world.avatars.len()
        invariant
            0 <= i <= all.len(),
            all == world.avatars@,
            f == visible_peer(*caller),
            peers@.map_values(|p: (String, String)| (p.0@, p.1@)) == all.take(i as int).filter(f).map_values(
                |a: AvatarView| (a.agent_id@, a.role@),
            ),
        decreases world.avatars.len() - i,
    {
        let a = &world.avatars[i];
        proof {
            reveal(Seq::filter);
            assert(all.take(i as int + 1).drop_last() =~= all.take(i as int));
            assert(all.take(i as int + 1).last() == all[i as int]);
        }
        if a.room_id == caller.room_id && a.agent_id != caller.agent_id && a.startup_id == caller.startup_id {
            let ghost before = peers@.map_values(|p: (String, String)| (p.0@, p.1@));
            peers.push((a.agent_id.clone(), a.role.clone()));
            proof {
                assert(peers@.map_values(|p: (String, String)| (p.0@, p.1@)) =~= before.push((a.agent_id@, a.role@)));
                assert(all.take(i as int + 1).filter(f) == all.take(i as int).filter(f).push(*a));
                assert(all.take(i as int + 1).filter(f).map_values(|b: AvatarView| (b.agent_id@, b.role@))
                    =~= all.take(i as int).filter(f).map_values(|b: AvatarView| (b.agent_id@, b.role@)).push(
                    (a.agent_id@, a.role@),
                ));
            }
        } else {
            proof {
                assert(all.take(i as int + 1).filter(f) == all.take(i as int).filter(f));
            }
        }
        i += 1;
    }
    proof {
        assert(all.take(all.len() as int) =~= all);
    }
    peers
}


/// The review-round limit: a change request on a task under review sends
/// it back for changes below `MAX_REVIEW_ROUNDS` rounds and escalates it
/// from then on.
pub proof fn law_review_round_limit(round: u32)
    ensures
        review_outcome_spec(TaskStatus::AwaitingReview, round) == Some(
            if round < MAX_REVIEW_ROUNDS {
                ReviewOutcome::ChangesRequested(TaskStatus::ChangesRequested)
            } else {
                ReviewOutcome::Escalated(TaskStatus::Escalated)
            },
        ),
{
}

/// The wire names of the statuses, and the public rooms: chat crosses
/// startups only in the lobby, the cafe and the library.
pub proof fn law_status_names_and_public_rooms(room: Seq<char>)
    ensures
        status_name(TaskStatus::Proposed) == "proposed"@,
        status_name(TaskStatus::Queued) == "queued"@,
        status_name(TaskStatus::InProgress) == "in_progress"@,
        status_name(TaskStatus::AwaitingReview) == "awaiting_review"@,
        status_name(TaskStatus::ChangesRequested) == "changes_requested"@,
        status_name(TaskStatus::Done) == "done"@,
        status_name(TaskStatus::Failed) == "failed"@,
        status_name(TaskStatus::Escalated) == "escalated"@,
        is_public_room_spec(room) <==> (room == "lobby"@ || room == "cafe"@ || room == "library"@),
{
}

} // verus!

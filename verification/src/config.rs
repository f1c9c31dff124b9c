//! The server's configuration, as read from its TOML file.

use vstd::prelude::*;

verus! {

/// The whole configuration.
#[derive(Debug)]
pub struct Config {
    pub world: WorldCfg,
    pub task: TaskCfg,
    pub epistemic: EpistemicCfg,
    pub budget: BudgetCfg,
    pub supervisor: SupervisorCfg,
    pub possess: PossessCfg,
    pub kanban: KanbanCfg,
}

/// The world loop: its tick rate, and how often positions are persisted.
#[derive(Debug, Clone, Copy)]
pub struct WorldCfg {
    pub tick_hz: u32,
    pub position_snapshot_every_ticks: u32,
}

/// Limits of one task.
#[derive(Debug, Clone, Copy)]
pub struct TaskCfg {
    pub max_review_rounds: u32,
    pub max_llm_turns_per_task: u32,
}

/// Limits of the hypothesis log.
#[derive(Debug, Clone, Copy)]
pub struct EpistemicCfg {
    pub max_hypotheses_per_task: u32,
    pub max_tests_per_hypothesis: u32,
    pub non_trivial_description_token_threshold: u32,
}

/// Budget thresholds, in percent of the cap.
#[derive(Debug, Clone, Copy)]
pub struct BudgetCfg {
    pub warn_pct: u32,
    pub no_new_task_pct: u32,
    pub pause_all_pct: u32,
}

/// Worker respawn policy.
#[derive(Debug, Clone)]
pub struct SupervisorCfg {
    pub worker_respawn_backoff_seconds: Vec<u64>,
    pub worker_respawn_max_attempts: u32,
}

/// How long an operator's possession survives without a keepalive.
#[derive(Debug, Clone, Copy)]
pub struct PossessCfg {
    pub operator_keepalive_timeout_seconds: u64,
}

/// When a task on the board counts as stuck.
#[derive(Debug, Clone, Copy)]
pub struct KanbanCfg {
    pub stuck_warn_minutes: u32,
    pub stuck_alert_minutes: u32,
}

} // verus!

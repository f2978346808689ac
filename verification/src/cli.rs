//! Command-line interface of burl: the command structure and its parser.

use vstd::prelude::*;

verus! {

/// Burl: minimal file-based workflow orchestrator for agentic coding pipelines.
#[derive(Debug, Clone)]
pub struct Cli {
    /// The command to run.
    pub command: Command,
}

/// Available commands.
#[derive(Debug, Clone)]
pub enum Command {
    /// Initialize the burl workflow in the current repository.
    Init,
    /// Add a new task to the workflow.
    Add(AddArgs),
    /// Show workflow status summary.
    Status,
    /// Show details of a specific task.
    Show(ShowArgs),
    /// Claim a task for work.
    Claim(ClaimArgs),
    /// Submit a task for QA review.
    Submit(SubmitArgs),
    /// Run validation checks on a task.
    Validate(ValidateArgs),
    /// Approve a task and merge to main.
    Approve(ApproveArgs),
    /// Reject a task and return it to READY.
    Reject(RejectArgs),
    /// Show the recorded worktree path for a task.
    Worktree(WorktreeArgs),
    /// Lock management commands.
    Lock(LockCommand),
    /// Diagnose workflow health.
    Doctor(DoctorArgs),
    /// Clean up completed or orphan worktrees.
    Clean(CleanArgs),
    /// Automation loop for claiming and QA processing.
    Watch(WatchArgs),
    /// Live dashboard for workflow status (aliases: visualizer, viz, dashboard).
    Monitor(MonitorArgs),
    /// Agent execution commands.
    Agent(AgentCommand),
}

/// Arguments for the `add` command.
#[derive(Debug, Clone)]
pub struct AddArgs {
    /// Title for the new task.
    pub title: String,
    /// Priority level (high, medium, low); `medium` by default.
    pub priority: String,
    /// Files or paths the task affects.
    pub affects: Vec<String>,
    /// Glob patterns for affected paths.
    pub affects_globs: Vec<String>,
    /// Paths the task must not touch.
    pub must_not_touch: Vec<String>,
    /// Task IDs the task depends on.
    pub depends_on: Vec<String>,
    /// Tags for categorization.
    pub tags: Vec<String>,
}

/// Arguments for the `show` command.
#[derive(Debug, Clone)]
pub struct ShowArgs {
    /// Task ID to show.
    pub task_id: String,
}

/// Arguments for the `claim` command.
#[derive(Debug, Clone)]
pub struct ClaimArgs {
    /// Task ID to claim; the next available task when absent.
    pub task_id: Option<String>,
}

/// Arguments for the `submit` command.
#[derive(Debug, Clone)]
pub struct SubmitArgs {
    /// Task ID to submit; the current worktree's task when absent.
    pub task_id: Option<String>,
}

/// Arguments for the `validate` command.
#[derive(Debug, Clone)]
pub struct ValidateArgs {
    /// Task ID to validate.
    pub task_id: String,
}

/// Arguments for the `approve` command.
#[derive(Debug, Clone)]
pub struct ApproveArgs {
    /// Task ID to approve.
    pub task_id: String,
}

/// Arguments for the `reject` command.
#[derive(Debug, Clone)]
pub struct RejectArgs {
    /// Task ID to reject.
    pub task_id: String,
    /// Reason for rejection.
    pub reason: String,
}

/// Arguments for the `worktree` command.
#[derive(Debug, Clone)]
pub struct WorktreeArgs {
    /// Task ID whose worktree path to print.
    pub task_id: String,
}

/// Lock subcommands.
#[derive(Debug, Clone)]
pub struct LockCommand {
    /// The lock action.
    pub action: LockAction,
}

/// Available lock actions.
#[derive(Debug, Clone)]
pub enum LockAction {
    /// List all active locks.
    List,
    /// Clear a specific lock.
    Clear(LockClearArgs),
}

/// Arguments for the `lock clear` command.
#[derive(Debug, Clone)]
pub struct LockClearArgs {
    /// Task ID whose lock should be cleared, or `workflow`.
    pub lock_id: String,
    /// Force clearing the lock.
    pub force: bool,
}

/// Arguments for the `doctor` command.
#[derive(Debug, Clone, Copy)]
pub struct DoctorArgs {
    /// Attempt to repair detected issues.
    pub repair: bool,
    /// Force repairs without confirmation.
    pub force: bool,
}

/// Arguments for the `clean` command.
#[derive(Debug, Clone, Copy)]
pub struct CleanArgs {
    /// Remove worktrees for completed tasks.
    pub completed: bool,
    /// Remove orphan worktrees.
    pub orphans: bool,
    /// Skip confirmation (perform the removals).
    pub yes: bool,
}

/// Arguments for the `watch` command.
#[derive(Debug, Clone, Copy)]
pub struct WatchArgs {
    /// Poll interval in milliseconds (2000 by default).
    pub interval_ms: u64,
    /// Whether to auto-claim READY tasks (true by default).
    pub claim: bool,
    /// Whether to process QA tasks (true by default).
    pub qa: bool,
    /// Whether to approve passing QA tasks.
    pub approve: bool,
    /// Whether to dispatch agents for newly claimed tasks.
    pub dispatch: bool,
    /// Run a single iteration and exit.
    pub once: bool,
}

/// Arguments for the `monitor` command.
#[derive(Debug, Clone, Copy)]
pub struct MonitorArgs {
    /// Refresh interval in milliseconds (1000 by default).
    pub interval_ms: u64,
    /// Run once and exit.
    pub once: bool,
    /// Clear the screen between refreshes (true by default).
    pub clear: bool,
    /// Tasks shown per bucket section (20 by default).
    pub limit: usize,
    /// Recent events shown, 0 disables (10 by default).
    pub tail: usize,
}

/// Agent subcommands.
#[derive(Debug, Clone)]
pub struct AgentCommand {
    /// The agent action.
    pub action: AgentAction,
}

/// Available agent actions.
#[derive(Debug, Clone)]
pub enum AgentAction {
    /// Run an agent on a task.
    Run(AgentRunArgs),
    /// List configured agents.
    List,
}

/// Arguments for the `agent run` command.
#[derive(Debug, Clone)]
pub struct AgentRunArgs {
    /// Task ID to run the agent on.
    pub task_id: String,
    /// Agent overriding the task's assigned agent.
    pub agent: Option<String>,
    /// Show the command without running it.
    pub dry_run: bool,
}

} // verus!

//! The run model: statuses, sources and the lineage that they carry.

use vstd::prelude::*;

verus! {

/// Identifier of a run.
pub type RunId = u64;

/// Identifier of a session.
pub type SessionId = u64;

/// Lifecycle status of a run.
#[derive(Clone, Copy, Debug, PartialEq, Eq, Structural)]
pub enum RunStatus {
    Queued,
    WaitingForApproval,
    Running,
    Completed,
    Failed,
    BudgetExceeded,
    Cancelled,
}

impl RunStatus {
    /// Whether the status is final.
    pub open spec fn spec_is_terminal(self) -> bool {
        match self {
            RunStatus::Completed | RunStatus::Failed | RunStatus::BudgetExceeded
            | RunStatus::Cancelled => true,
            _ => false,
        }
    }

    /// Whether the status is final.
    pub fn is_terminal(&self) -> (res: bool)
        ensures
            res == self.spec_is_terminal(),
    {
        match self {
            RunStatus::Completed | RunStatus::Failed | RunStatus::BudgetExceeded
            | RunStatus::Cancelled => true,
            _ => false,
        }
    }

    /// Whether the status is one of the three open (not yet final) statuses.
    pub open spec fn spec_is_open(self) -> bool {
        match self {
            RunStatus::Queued | RunStatus::Running | RunStatus::WaitingForApproval => true,
            _ => false,
        }
    }

    /// Whether the status is one of the three open (not yet final) statuses.
    pub fn is_open(&self) -> (res: bool)
        ensures
            res == self.spec_is_open(),
            res == !self.spec_is_terminal(),
    {
        match self {
            RunStatus::Queued | RunStatus::Running | RunStatus::WaitingForApproval => true,
            _ => false,
        }
    }
}

/// Filesystem scope that a run asks for.
#[derive(Clone, Copy, Debug, PartialEq, Eq, Structural)]
pub enum WorkspaceMode {
    Readonly,
    WorkspaceWrite,
    WorktreeWrite,
    RepoWriteWithApproval,
    RemoteWorker,
    Containerized,
    Ephemeral,
}

/// Structured result kinds that a run can be asked to return.
#[derive(Clone, Copy, Debug, PartialEq, Eq, Structural)]
pub enum OutputContractKind {
    Debug,
    Patch,
    Review,
    Test,
    Plan,
    Custom,
}

/// Harness that executes a run.
#[derive(Clone, Copy, Debug, PartialEq, Eq, Structural)]
pub enum RunHarnessKind {
    Native,
    Acp,
    CodexAppServer,
    RealtimeVoice,
}

/// Where a run came from.
#[derive(Debug)]
pub enum RunSource {
    User { output_contract: Option<OutputContractKind>, recipe_id: Option<String> },
    ScheduledWork { scheduled_work_id: u64, occurrence_id: u64 },
    NativeSubagent {
        parent_run_id: RunId,
        /// The parent's turn that spawned the subagent.
        parent_turn_id: u64,
        workspace_scope: WorkspaceMode,
        output_contract: Option<OutputContractKind>,
        recipe_id: Option<String>,
    },
    FreshSpawn {
        parent_run_id: RunId,
        workspace_scope: WorkspaceMode,
        output_contract: Option<OutputContractKind>,
        recipe_id: Option<String>,
    },
    Forked { parent_run_id: RunId, parent_event_seq: u64 },
    RouteSwitchedContinuation { parent_run_id: RunId },
}

/// The stored projection of a run that the orchestration logic reads.
#[derive(Debug)]
pub struct RunRecord {
    pub id: RunId,
    pub session_id: SessionId,
    pub status: RunStatus,
    pub harness: RunHarnessKind,
    pub source: RunSource,
    pub started_at_ms: Option<u64>,
    pub ended_at_ms: Option<u64>,
    pub last_event_seq: Option<u64>,
}

/// The parent through which budgets are inherited: native subagents, forks
/// and route-switched continuations count against their parent; fresh
/// spawns, scheduled work and user runs are budget roots.
pub open spec fn spec_budget_parent(source: RunSource) -> Option<RunId> {
    match source {
        RunSource::NativeSubagent { parent_run_id, .. } => Some(parent_run_id),
        RunSource::Forked { parent_run_id, .. } => Some(parent_run_id),
        RunSource::RouteSwitchedContinuation { parent_run_id } => Some(parent_run_id),
        _ => None,
    }
}

/// The budget parent of a run (see [`spec_budget_parent`]).
pub fn parent_run_id(run: &RunRecord) -> (res: Option<RunId>)
    ensures
        res == spec_budget_parent(run.source),
{
    match &run.source {
        RunSource::NativeSubagent { parent_run_id, .. } => Some(*parent_run_id),
        RunSource::Forked { parent_run_id, .. } => Some(*parent_run_id),
        RunSource::RouteSwitchedContinuation { parent_run_id } => Some(*parent_run_id),
        _ => None,
    }
}

/// The lineage parent that a run record reports: every source that was
/// started from another run, fresh spawns included.
pub open spec fn spec_lineage_parent(source: RunSource) -> Option<RunId> {
    match source {
        RunSource::NativeSubagent { parent_run_id, .. } => Some(parent_run_id),
        RunSource::FreshSpawn { parent_run_id, .. } => Some(parent_run_id),
        RunSource::Forked { parent_run_id, .. } => Some(parent_run_id),
        RunSource::RouteSwitchedContinuation { parent_run_id } => Some(parent_run_id),
        _ => None,
    }
}

/// The lineage parent that a projected run record carries.
pub fn lineage_parent_run_id(run: &RunRecord) -> (res: Option<RunId>)
    ensures
        res == spec_lineage_parent(run.source),
{
    match &run.source {
        RunSource::NativeSubagent { parent_run_id, .. } => Some(*parent_run_id),
        RunSource::FreshSpawn { parent_run_id, .. } => Some(*parent_run_id),
        RunSource::Forked { parent_run_id, .. } => Some(*parent_run_id),
        RunSource::RouteSwitchedContinuation { parent_run_id } => Some(*parent_run_id),
        _ => None,
    }
}

/// The output contract that a run was started with, where its source carries one.
pub open spec fn spec_output_contract(source: RunSource) -> Option<OutputContractKind> {
    match source {
        RunSource::User { output_contract, .. } => output_contract,
        RunSource::NativeSubagent { output_contract, .. } => output_contract,
        RunSource::FreshSpawn { output_contract, .. } => output_contract,
        _ => None,
    }
}

/// The output contract of a run (see [`spec_output_contract`]).
pub fn output_contract_for_run(run: &RunRecord) -> (res: Option<OutputContractKind>)
    ensures
        res == spec_output_contract(run.source),
{
    match &run.source {
        RunSource::User { output_contract, .. } => *output_contract,
        RunSource::NativeSubagent { output_contract, .. } => *output_contract,
        RunSource::FreshSpawn { output_contract, .. } => *output_contract,
        _ => None,
    }
}

/// The recipe id of a run's source, as a character sequence.
pub open spec fn spec_recipe_id(source: RunSource) -> Option<Seq<char>> {
    match source {
        RunSource::User { recipe_id, .. } => match recipe_id {
            Some(r) => Some(r@),
            None => None,
        },
        RunSource::NativeSubagent { recipe_id, .. } => match recipe_id {
            Some(r) => Some(r@),
            None => None,
        },
        RunSource::FreshSpawn { recipe_id, .. } => match recipe_id {
            Some(r) => Some(r@),
            None => None,
        },
        _ => None,
    }
}

fn clone_recipe(recipe_id: &Option<String>) -> (res: Option<String>)
    ensures
        match (res, *recipe_id) {
            (Some(a), Some(b)) => a@ == b@,
            (None, None) => true,
            _ => false,
        },
{
    match recipe_id {
        Some(r) => Some(r.clone()),
        None => None,
    }
}

/// The recipe id of a run (see [`spec_recipe_id`]).
pub fn recipe_id_for_run(run: &RunRecord) -> (res: Option<String>)
    ensures
        match res {
            Some(r) => spec_recipe_id(run.source) == Some(r@),
            None => spec_recipe_id(run.source) is None,
        },
{
    match &run.source {
        RunSource::User { recipe_id, .. } => clone_recipe(recipe_id),
        RunSource::NativeSubagent { recipe_id, .. } => clone_recipe(recipe_id),
        RunSource::FreshSpawn { recipe_id, .. } => clone_recipe(recipe_id),
        _ => None,
    }
}

} // verus!

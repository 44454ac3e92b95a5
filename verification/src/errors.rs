//! Refusals of run operations.

use vstd::prelude::*;

use crate::budget::BudgetExceeded;
use crate::execution_policy::ScopeError;
use crate::fork::ForkError;
use crate::run::{OutputContractKind, RunId, SessionId};

verus! {

/// Why a run cannot be resumed.
#[derive(Debug, Clone, Copy, PartialEq, Eq, Structural)]
pub enum NotResumableReason {
    /// The run is live in the store but no live native execution owns it.
    NoLiveNativeOwner,
    /// The run has finished.
    Terminal,
    /// The run has not finished yet.
    StillOpen,
}

/// Refusals of run operations.
#[derive(Debug)]
pub enum RunExecutionError {
    /// The store failed; the text is its report.
    Store(String),
    EmptyArtifactStoragePath,
    EmptyRunObjective,
    SessionNotFound(SessionId),
    RunNotFound(RunId),
    RunSessionMismatch(RunId),
    RunNotWaitingForApproval(RunId),
    RunNotLiveOwned(RunId),
    RunNotNativeHarness(RunId),
    RunNotResumable { run_id: RunId, reason: NotResumableReason },
    RunForkPointNotFound { run_id: RunId, boundary: u64 },
    RunForkPointNotTurnBoundary(ForkError),
    RunNotQueued(RunId),
    RunNotCancellable(RunId),
    RunQueueFull(SessionId),
    SessionWorkspaceNotFound(u64),
    WorkspaceTrustRequired(u64),
    WorkspaceScope(ScopeError),
    UnknownRecipeId(String),
    RecipeContractConflict {
        recipe_id: String,
        recipe_contract: OutputContractKind,
        request_contract: OutputContractKind,
    },
    OutputContractViolation(String),
    BudgetExceeded(BudgetExceeded),
    ApprovalNotFound(u64),
    ApprovalAlreadyResolved(u64),
    ProviderExecutionFailed(String),
    /// A Git checkpoint could not be taken; the text says why.
    CheckpointFailed(String),
    /// A route switch named the route the run already failed on.
    ReplacementRouteMustDiffer,
    /// The attachments were not validated by the application boundary.
    UnvalidatedWorkspaceFileAttachments,
    /// The run did not fail on an exhausted route.
    RunNotRouteExhausted(RunId),
}

/// The error a fork refusal maps to.
pub open spec fn spec_fork_error(e: ForkError) -> RunExecutionError {
    match e {
        ForkError::RunNotNativeHarness(r) => RunExecutionError::RunNotNativeHarness(r),
        ForkError::ForkPointNotFound { run_id, boundary } => RunExecutionError::RunForkPointNotFound {
            run_id,
            boundary,
        },
        other => RunExecutionError::RunForkPointNotTurnBoundary(other),
    }
}

/// Map a fork refusal to a run error (see [`spec_fork_error`]).
pub fn fork_error(e: ForkError) -> (r: RunExecutionError)
    ensures
        r == spec_fork_error(e),
{
    match e {
        ForkError::RunNotNativeHarness(r) => RunExecutionError::RunNotNativeHarness(r),
        ForkError::ForkPointNotFound { run_id, boundary } => RunExecutionError::RunForkPointNotFound {
            run_id,
            boundary,
        },
        other => RunExecutionError::RunForkPointNotTurnBoundary(other),
    }
}

} // verus!

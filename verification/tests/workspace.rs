use ta_orchestrator::run::{RunStatus, WorkspaceMode};
use ta_orchestrator::errors::RunExecutionError;
use ta_orchestrator::execution_policy::{ContextInheritanceReason, ScopeError};
use ta_orchestrator::workspace::{
    check_child_workspace, check_execution_workspace, SessionWorkspaceLookup,
    current_time_ms, epoch_millis, ExecutionContextRequest, WorktreeCleanupPolicy, platform_protocol_workspace_path, protocol_workspace_path, worktree_outcome, WorkspaceRunRegistry,
    WorkspaceRunResources, WorktreeOutcome,
};

#[test]
fn execution_context_preparation_allocates_worktree_claims_and_cleans_success() {
    let mut runs = WorkspaceRunRegistry::new();
    runs.insert(1, WorkspaceRunResources { worktree: Some(9), claim: true });
    assert_eq!(runs.active_count(), 1);
    let finished = runs.finish(1, RunStatus::Completed).expect("resources");
    assert!(finished.release_claim);
    assert_eq!(finished.worktree, Some((9, WorktreeOutcome::Success)));
    assert_eq!(runs.active_count(), 0);
    assert!(runs.finish(1, RunStatus::Completed).is_none());
}

#[test]
fn worktrees_are_marked_by_final_status() {
    assert_eq!(worktree_outcome(RunStatus::Completed), WorktreeOutcome::Success);
    assert_eq!(worktree_outcome(RunStatus::Failed), WorktreeOutcome::Failed);
    assert_eq!(worktree_outcome(RunStatus::BudgetExceeded), WorktreeOutcome::Failed);
    assert_eq!(worktree_outcome(RunStatus::Cancelled), WorktreeOutcome::Cancelled);
    assert_eq!(worktree_outcome(RunStatus::Running), WorktreeOutcome::Terminal);
}

#[test]
fn registry_replaces_a_runs_resources() {
    let mut runs = WorkspaceRunRegistry::new();
    runs.insert(1, WorkspaceRunResources { worktree: Some(9), claim: false });
    runs.insert(1, WorkspaceRunResources { worktree: None, claim: true });
    runs.insert(2, WorkspaceRunResources { worktree: None, claim: true });
    assert_eq!(runs.active_count(), 2);
    let f = runs.finish(1, RunStatus::Cancelled).unwrap();
    assert!(f.release_claim);
    assert_eq!(f.worktree, None);
}

#[test]
fn protocol_paths_use_forward_slashes() {
    assert_eq!(protocol_workspace_path("src\\main.rs", true), "src/main.rs");
    assert_eq!(protocol_workspace_path("src\\main.rs", false), "src\\main.rs");
    assert_eq!(platform_protocol_workspace_path("a/b\\c", true), "a/b/c");
    assert_eq!(platform_protocol_workspace_path("", true), "");
}

#[test]
fn the_clock_reads_after_the_epoch() {
    assert!(current_time_ms().unwrap() > 1_600_000_000_000);
}

#[test]
fn clock_readings_are_truncated_milliseconds() {
    assert_eq!(epoch_millis(Some(1_700_000_000_123)), Some(1_700_000_000_123));
    assert_eq!(epoch_millis(Some(u64::MAX as u128 + 6)), Some(5));
    assert_eq!(epoch_millis(None), None);
    assert!(current_time_ms().unwrap() > 1_600_000_000_000);
}

#[test]
fn default_requests_write_in_the_workspace() {
    let r = ExecutionContextRequest::workspace_write();
    assert_eq!(r.workspace_mode, WorkspaceMode::WorkspaceWrite);
    assert_eq!(r.cleanup_policy, WorktreeCleanupPolicy::DeleteOnSuccess);
    assert!(r.planned_write_files.is_empty());
}

#[test]
fn execution_context_preparation_rejects_unverified_workspace() {
    let untrusted = SessionWorkspaceLookup::Found { workspace_id: 3, trusted: false };
    assert!(matches!(
        check_execution_workspace(WorkspaceMode::WorkspaceWrite, 1, untrusted),
        Err(RunExecutionError::WorkspaceTrustRequired(3))
    ));
    let trusted = SessionWorkspaceLookup::Found { workspace_id: 3, trusted: true };
    assert_eq!(check_execution_workspace(WorkspaceMode::WorkspaceWrite, 1, trusted).unwrap(), 3);
}

#[test]
fn workspace_preparation_checks_scope_session_and_workspace_in_order() {
    let trusted = SessionWorkspaceLookup::Found { workspace_id: 3, trusted: true };
    assert!(matches!(
        check_execution_workspace(WorkspaceMode::Ephemeral, 1, SessionWorkspaceLookup::SessionMissing),
        Err(RunExecutionError::WorkspaceScope(ScopeError::WorkspaceScopeUnsupported(WorkspaceMode::Ephemeral)))
    ));
    assert!(matches!(
        check_execution_workspace(WorkspaceMode::Readonly, 1, SessionWorkspaceLookup::SessionMissing),
        Err(RunExecutionError::SessionNotFound(1))
    ));
    assert!(matches!(
        check_execution_workspace(WorkspaceMode::Readonly, 1, SessionWorkspaceLookup::WorkspaceMissing(8)),
        Err(RunExecutionError::SessionWorkspaceNotFound(8))
    ));
    assert!(check_child_workspace(WorkspaceMode::WorktreeWrite, 1, trusted, 3, true).is_ok());
    // A child does not need trust confirmed again, but must stay in its parent's workspace.
    let untrusted = SessionWorkspaceLookup::Found { workspace_id: 3, trusted: false };
    assert!(check_child_workspace(WorkspaceMode::Readonly, 1, untrusted, 3, true).is_ok());
    assert!(matches!(
        check_child_workspace(WorkspaceMode::Readonly, 1, trusted, 4, true),
        Err(RunExecutionError::WorkspaceScope(ScopeError::ContextInheritanceUnsupported {
            requested: Some(WorkspaceMode::Readonly),
            reason: ContextInheritanceReason::ContextMismatch
        }))
    ));
    assert!(check_child_workspace(WorkspaceMode::Readonly, 1, trusted, 3, false).is_err());
}

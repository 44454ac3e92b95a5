use ta_orchestrator::execution_policy::{
    compile_child_execution_policy, compile_execution_policy, reject_unsupported_scope, sandbox_profile,
    workspace_mode_for_fork, workspace_scope_kind, CompiledExecutionPolicy, ContextInheritanceReason,
    ExecutionContext, NetworkPolicy, PermissionPolicy, PolicyDecision, ProcessExecPolicy, ScopeError,
    WorkspacePath, WorkspaceScopeKind,
};
use ta_orchestrator::run::WorkspaceMode;

fn deny() -> PolicyDecision {
    PolicyDecision::Deny { reason: "denied".to_string() }
}

fn approval() -> PolicyDecision {
    PolicyDecision::RequireApproval { reason: "ask".to_string() }
}

fn path(parts: &[&str]) -> WorkspacePath {
    WorkspacePath { components: parts.iter().map(|p| p.to_string()).collect() }
}

fn names(paths: &[WorkspacePath]) -> Vec<Vec<String>> {
    paths.iter().map(|p| p.components.clone()).collect()
}

#[test]
fn execution_policy_compilation_uses_policy_engine_decisions() {
    assert_eq!(
        compile_execution_policy(WorkspaceMode::WorkspaceWrite, &deny(), &deny(), &deny()),
        CompiledExecutionPolicy {
            permission_policy: PermissionPolicy::ReadOnly,
            process_exec: ProcessExecPolicy::Denied,
            network_policy: NetworkPolicy::Disabled,
        }
    );
    assert_eq!(
        compile_execution_policy(WorkspaceMode::WorkspaceWrite, &approval(), &approval(), &approval()),
        CompiledExecutionPolicy {
            permission_policy: PermissionPolicy::WorkspaceWriteWithApproval,
            process_exec: ProcessExecPolicy::AllowAll,
            network_policy: NetworkPolicy::Open,
        }
    );
    assert_eq!(
        compile_execution_policy(WorkspaceMode::RepoWriteWithApproval, &deny(), &deny(), &deny()).permission_policy,
        PermissionPolicy::ReadOnly
    );
    assert_eq!(
        compile_execution_policy(WorkspaceMode::WorkspaceWrite, &PolicyDecision::Allow, &PolicyDecision::Allow, &deny())
            .network_policy,
        NetworkPolicy::Disabled
    );
}

#[test]
fn sandbox_roots_follow_the_permission_policy() {
    let root = path(&["repo", "ws"]);
    let cwd = path(&["repo", "ws"]);
    let artifacts = path(&["repo", "target"]);
    let repo = path(&["repo"]);
    let write = sandbox_profile(&root, &cwd, &artifacts, &repo, PermissionPolicy::WorkspaceWrite, ProcessExecPolicy::AllowAll, Vec::new());
    assert_eq!(names(&write.read_roots), vec![vec!["repo".to_string(), "ws".to_string()]]);
    assert_eq!(
        names(&write.write_roots),
        vec![vec!["repo".to_string(), "ws".to_string()], vec!["repo".to_string(), "target".to_string()]]
    );
    let read_only = sandbox_profile(&root, &cwd, &artifacts, &repo, PermissionPolicy::ReadOnly, ProcessExecPolicy::Denied, Vec::new());
    assert!(read_only.write_roots.is_empty());
    assert_eq!(read_only.process_exec, ProcessExecPolicy::Denied);
    let repo_write = sandbox_profile(&root, &cwd, &artifacts, &repo, PermissionPolicy::RepoWriteWithApproval, ProcessExecPolicy::AllowAll, Vec::new());
    assert_eq!(names(&repo_write.read_roots), vec![vec!["repo".to_string(), "ws".to_string()], vec!["repo".to_string()]]);
    assert_eq!(names(&repo_write.write_roots), vec![vec!["repo".to_string()], vec!["repo".to_string(), "target".to_string()]]);
}

#[test]
fn unsupported_scopes_are_refused() {
    assert_eq!(reject_unsupported_scope(WorkspaceMode::RemoteWorker), Err(ScopeError::WorkspaceScopeUnsupported(WorkspaceMode::RemoteWorker)));
    assert_eq!(reject_unsupported_scope(WorkspaceMode::WorktreeWrite), Ok(()));
    assert_eq!(workspace_scope_kind(WorkspaceMode::WorktreeWrite, false), Err(ScopeError::WorktreeMissing));
    assert_eq!(workspace_scope_kind(WorkspaceMode::WorktreeWrite, true), Ok(WorkspaceScopeKind::Worktree));
    assert_eq!(workspace_scope_kind(WorkspaceMode::RepoWriteWithApproval, false), Ok(WorkspaceScopeKind::Local));
}

fn parent_context(permission: PermissionPolicy, scope: WorkspaceScopeKind) -> ExecutionContext {
    let root = path(&["repo", "ws"]);
    let profile = sandbox_profile(
        &root,
        &path(&["repo", "ws"]),
        &path(&["repo", "target"]),
        &path(&["repo"]),
        permission,
        ProcessExecPolicy::AllowAll,
        Vec::new(),
    );
    ExecutionContext {
        workspace_root: root,
        effective_cwd: path(&["repo", "ws"]),
        artifact_root: path(&["repo", "target"]),
        workspace_scope: scope,
        sandbox_profile: profile,
        permission_policy: permission,
        network_policy: NetworkPolicy::Open,
    }
}

#[test]
fn children_never_widen_their_parent() {
    let read_only = parent_context(PermissionPolicy::ReadOnly, WorkspaceScopeKind::Readonly);
    assert_eq!(
        compile_child_execution_policy(&read_only, WorkspaceMode::WorkspaceWrite, &path(&["repo"])),
        Err(ScopeError::ContextInheritanceUnsupported {
            requested: Some(WorkspaceMode::WorkspaceWrite),
            reason: ContextInheritanceReason::WidensAuthority,
        })
    );
    assert_eq!(
        compile_child_execution_policy(&read_only, WorkspaceMode::Readonly, &path(&["repo"])).unwrap().permission_policy,
        PermissionPolicy::ReadOnly
    );
    let writer = parent_context(PermissionPolicy::WorkspaceWrite, WorkspaceScopeKind::Local);
    let child = compile_child_execution_policy(&writer, WorkspaceMode::WorktreeWrite, &path(&["repo"])).unwrap();
    assert_eq!(child.network_policy, NetworkPolicy::Open);
    assert!(compile_child_execution_policy(&writer, WorkspaceMode::RepoWriteWithApproval, &path(&["repo"])).is_err());
    assert_eq!(
        compile_child_execution_policy(&writer, WorkspaceMode::Containerized, &path(&["repo"])),
        Err(ScopeError::ContextInheritanceUnsupported {
            requested: Some(WorkspaceMode::Containerized),
            reason: ContextInheritanceReason::ScopeNotImplemented,
        })
    );
}

#[test]
fn forks_keep_their_parent_scope() {
    assert_eq!(workspace_mode_for_fork(&parent_context(PermissionPolicy::ReadOnly, WorkspaceScopeKind::Readonly)), Ok(WorkspaceMode::Readonly));
    assert_eq!(workspace_mode_for_fork(&parent_context(PermissionPolicy::WorkspaceWrite, WorkspaceScopeKind::Worktree)), Ok(WorkspaceMode::WorktreeWrite));
    assert_eq!(
        workspace_mode_for_fork(&parent_context(PermissionPolicy::RepoWriteWithApproval, WorkspaceScopeKind::Local)),
        Ok(WorkspaceMode::RepoWriteWithApproval)
    );
    assert!(workspace_mode_for_fork(&parent_context(PermissionPolicy::WorkspaceWrite, WorkspaceScopeKind::Remote)).is_err());
}

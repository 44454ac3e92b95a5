//! Compilation of a run's filesystem, process and network authority from
//! the workspace scope it asks for and the policy decisions that apply, and
//! the rule that a child run never gets more authority than its parent.

use vstd::prelude::*;

use crate::run::WorkspaceMode;

verus! {

/// A canonical filesystem path, as its components.
#[derive(Debug)]
pub struct WorkspacePath {
    pub components: Vec<String>,
}

impl View for WorkspacePath {
    type V = Seq<Seq<char>>;

    open spec fn view(&self) -> Seq<Seq<char>> {
        self.components@.map_values(|c: String| c@)
    }
}

/// The views of a list of paths.
pub open spec fn spec_paths(v: Seq<WorkspacePath>) -> Seq<Seq<Seq<char>>> {
    v.map_values(|p: WorkspacePath| p@)
}

/// Whether `path` lies at or below `root`, component by component.
pub open spec fn spec_starts_with(path: Seq<Seq<char>>, root: Seq<Seq<char>>) -> bool {
    root.len() <= path.len() && path.subrange(0, root.len() as int) == root
}

/// Whether some root grants `path`.
pub open spec fn spec_path_allowed(roots: Seq<Seq<Seq<char>>>, path: Seq<Seq<char>>) -> bool {
    exists|i: int| 0 <= i < roots.len() && spec_starts_with(path, #[trigger] roots[i])
}

impl WorkspacePath {
    /// A copy of the path.
    pub fn duplicate(&self) -> (p: WorkspacePath)
        ensures
            p@ == self@,
    {
        let mut components: Vec<String> = Vec::new();
        let mut i: usize = 0;
        while i < self.components.len()
            invariant
                0 <= i <= self.components.len(),
                components@.len() == i,
                forall|j: int| 0 <= j < i ==> #[trigger] components@[j]@ == self.components@[j]@,
            decreases self.components.len() - i,
        {
            components.push(self.components[i].clone());
            i = i + 1;
        }
        let p = WorkspacePath { components };
        assert(p@ =~= self@);
        p
    }

    /// Whether the two paths are the same.
    pub fn same_as(&self, other: &WorkspacePath) -> (res: bool)
        ensures
            res == (self@ == other@),
    {
        if self.components.len() != other.components.len() {
            assert(self@.len() != other@.len());
            return false;
        }
        let mut i: usize = 0;
        while i < self.components.len()
            invariant
                0 <= i <= self.components.len(),
                self.components.len() == other.components.len(),
                forall|j: int| 0 <= j < i ==> self@[j] == other@[j],
            decreases self.components.len() - i,
        {
            if self.components[i] != other.components[i] {
                assert(self@[i as int] != other@[i as int]);
                return false;
            }
            i = i + 1;
        }
        assert(self@ =~= other@);
        true
    }

    /// Whether this path lies at or below `root`.
    pub fn starts_with(&self, root: &WorkspacePath) -> (res: bool)
        ensures
            res == spec_starts_with(self@, root@),
    {
        if root.components.len() > self.components.len() {
            return false;
        }
        let mut i: usize = 0;
        while i < root.components.len()
            invariant
                0 <= i <= root.components.len(),
                root.components.len() <= self.components.len(),
                forall|j: int| 0 <= j < i ==> self@[j] == root@[j],
            decreases root.components.len() - i,
        {
            if self.components[i] != root.components[i] {
                assert(self@.subrange(0, root@.len() as int)[i as int] != root@[i as int]);
                return false;
            }
            i = i + 1;
        }
        assert(self@.subrange(0, root@.len() as int) =~= root@);
        true
    }
}

/// Whether some root in `roots` grants `path`.
pub fn path_allowed(roots: &Vec<WorkspacePath>, path: &WorkspacePath) -> (res: bool)
    ensures
        res == spec_path_allowed(spec_paths(roots@), path@),
{
    let mut i: usize = 0;
    while i < roots.len()
        invariant
            0 <= i <= roots.len(),
            forall|j: int| 0 <= j < i ==> !spec_starts_with(path@, #[trigger] spec_paths(roots@)[j]),
        decreases roots.len() - i,
    {
        if path.starts_with(&roots[i]) {
            assert(spec_starts_with(path@, spec_paths(roots@)[i as int]));
            return true;
        }
        i = i + 1;
    }
    false
}

/// Append `path` unless an equal path is already listed.
pub fn push_unique(paths: &mut Vec<WorkspacePath>, path: &WorkspacePath)
    ensures
        spec_paths(final(paths)@) == if spec_paths(old(paths)@).contains(path@) {
            spec_paths(old(paths)@)
        } else {
            spec_paths(old(paths)@).push(path@)
        },
{
    let mut i: usize = 0;
    while i < paths.len()
        invariant
            0 <= i <= paths.len(),
            paths@ == old(paths)@,
            forall|j: int| 0 <= j < i ==> #[trigger] spec_paths(paths@)[j] != path@,
        decreases paths.len() - i,
    {
        if paths[i].same_as(path) {
            assert(spec_paths(paths@)[i as int] == path@);
            return;
        }
        i = i + 1;
    }
    let ghost before = paths@;
    paths.push(path.duplicate());
    assert(spec_paths(paths@) =~= spec_paths(before).push(path@));
}

/// A decision of the policy engine about one operation.
#[derive(Debug)]
pub enum PolicyDecision {
    Allow,
    RequireApproval { reason: String },
    Deny { reason: String },
}

/// Filesystem authority of a run.
#[derive(Debug, Clone, Copy, PartialEq, Eq, Structural)]
pub enum PermissionPolicy {
    ReadOnly,
    WorkspaceWrite,
    WorkspaceWriteWithApproval,
    RepoWriteWithApproval,
    Unrestricted,
}

/// Process authority of a run.
#[derive(Debug, Clone, Copy, PartialEq, Eq, Structural)]
pub enum ProcessExecPolicy {
    Denied,
    AllowAll,
}

/// Network authority of a run.
#[derive(Debug, Clone, Copy, PartialEq, Eq, Structural)]
pub enum NetworkPolicy {
    Disabled,
    Open,
}

/// The authority compiled for a run.
#[derive(Debug, Clone, Copy, PartialEq, Eq, Structural)]
pub struct CompiledExecutionPolicy {
    pub permission_policy: PermissionPolicy,
    pub process_exec: ProcessExecPolicy,
    pub network_policy: NetworkPolicy,
}

/// The filesystem authority for a workspace mode under a file-write decision.
pub open spec fn spec_permission_for(mode: WorkspaceMode, file_write: PolicyDecision) -> PermissionPolicy {
    match mode {
        WorkspaceMode::Readonly => PermissionPolicy::ReadOnly,
        WorkspaceMode::RepoWriteWithApproval => match file_write {
            PolicyDecision::Deny { .. } => PermissionPolicy::ReadOnly,
            _ => PermissionPolicy::RepoWriteWithApproval,
        },
        WorkspaceMode::WorkspaceWrite | WorkspaceMode::WorktreeWrite => match file_write {
            PolicyDecision::Deny { .. } => PermissionPolicy::ReadOnly,
            PolicyDecision::RequireApproval { .. } => PermissionPolicy::WorkspaceWriteWithApproval,
            PolicyDecision::Allow => PermissionPolicy::WorkspaceWrite,
        },
        _ => PermissionPolicy::ReadOnly,
    }
}

/// The authority of a run: filesystem authority from its workspace mode and
/// the file-write decision, and process and network authority open unless
/// their decision denies them.
pub open spec fn spec_compile_execution_policy(
    mode: WorkspaceMode,
    file_write: PolicyDecision,
    process_exec: PolicyDecision,
    network_access: PolicyDecision,
) -> CompiledExecutionPolicy {
    CompiledExecutionPolicy {
        permission_policy: spec_permission_for(mode, file_write),
        process_exec: if process_exec is Deny {
            ProcessExecPolicy::Denied
        } else {
            ProcessExecPolicy::AllowAll
        },
        network_policy: if network_access is Deny {
            NetworkPolicy::Disabled
        } else {
            NetworkPolicy::Open
        },
    }
}

/// Compile a run's authority from the policy engine's decisions on writing
/// workspace files, executing processes and accessing the network.
pub fn compile_execution_policy(
    mode: WorkspaceMode,
    file_write: &PolicyDecision,
    process_exec: &PolicyDecision,
    network_access: &PolicyDecision,
) -> (c: CompiledExecutionPolicy)
    ensures
        c == spec_compile_execution_policy(mode, *file_write, *process_exec, *network_access),
{
    let permission_policy = match mode {
        WorkspaceMode::Readonly => PermissionPolicy::ReadOnly,
        WorkspaceMode::RepoWriteWithApproval => match file_write {
            PolicyDecision::Deny { .. } => PermissionPolicy::ReadOnly,
            _ => PermissionPolicy::RepoWriteWithApproval,
        },
        WorkspaceMode::WorkspaceWrite | WorkspaceMode::WorktreeWrite => match file_write {
            PolicyDecision::Deny { .. } => PermissionPolicy::ReadOnly,
            PolicyDecision::RequireApproval { .. } => PermissionPolicy::WorkspaceWriteWithApproval,
            PolicyDecision::Allow => PermissionPolicy::WorkspaceWrite,
        },
        _ => PermissionPolicy::ReadOnly,
    };
    let process = match process_exec {
        PolicyDecision::Deny { .. } => ProcessExecPolicy::Denied,
        _ => ProcessExecPolicy::AllowAll,
    };
    let network = match network_access {
        PolicyDecision::Deny { .. } => NetworkPolicy::Disabled,
        _ => NetworkPolicy::Open,
    };
    CompiledExecutionPolicy { permission_policy, process_exec: process, network_policy: network }
}

/// The roots a run may read, write, or must not touch.
#[derive(Debug)]
pub struct SandboxProfile {
    pub read_roots: Vec<WorkspacePath>,
    pub write_roots: Vec<WorkspacePath>,
    pub denied_roots: Vec<WorkspacePath>,
    pub process_exec: ProcessExecPolicy,
}

/// Append `p` to `s` unless already present.
pub open spec fn spec_push_unique(s: Seq<Seq<Seq<char>>>, p: Seq<Seq<char>>) -> Seq<Seq<Seq<char>>> {
    if s.contains(p) {
        s
    } else {
        s.push(p)
    }
}

/// The read roots of a sandbox: the workspace root and the working
/// directory, and the repository root when the run may write it.
pub open spec fn spec_read_roots(
    workspace_root: Seq<Seq<char>>,
    effective_cwd: Seq<Seq<char>>,
    repo_root: Seq<Seq<char>>,
    permission: PermissionPolicy,
) -> Seq<Seq<Seq<char>>> {
    let base = spec_push_unique(seq![workspace_root], effective_cwd);
    match permission {
        PermissionPolicy::RepoWriteWithApproval | PermissionPolicy::Unrestricted => spec_push_unique(
            base,
            repo_root,
        ),
        _ => base,
    }
}

/// The write roots of a sandbox: none for read-only runs; the repository
/// and artifact roots for repository writers; the working directory and the
/// artifact root for workspace writers.
pub open spec fn spec_write_roots(
    effective_cwd: Seq<Seq<char>>,
    artifact_root: Seq<Seq<char>>,
    repo_root: Seq<Seq<char>>,
    permission: PermissionPolicy,
) -> Seq<Seq<Seq<char>>> {
    match permission {
        PermissionPolicy::ReadOnly => Seq::empty(),
        PermissionPolicy::RepoWriteWithApproval | PermissionPolicy::Unrestricted => spec_push_unique(
            seq![repo_root],
            artifact_root,
        ),
        _ => spec_push_unique(seq![effective_cwd], artifact_root),
    }
}

/// Build the sandbox of a run (see [`spec_read_roots`] and [`spec_write_roots`]).
pub fn sandbox_profile(
    workspace_root: &WorkspacePath,
    effective_cwd: &WorkspacePath,
    artifact_root: &WorkspacePath,
    repo_root: &WorkspacePath,
    permission_policy: PermissionPolicy,
    process_exec: ProcessExecPolicy,
    denied_roots: Vec<WorkspacePath>,
) -> (p: SandboxProfile)
    ensures
        spec_paths(p.read_roots@) == spec_read_roots(workspace_root@, effective_cwd@, repo_root@, permission_policy),
        spec_paths(p.write_roots@) == spec_write_roots(effective_cwd@, artifact_root@, repo_root@, permission_policy),
        spec_paths(p.denied_roots@) == spec_paths(denied_roots@),
        p.process_exec == process_exec,
{
    let mut read_roots: Vec<WorkspacePath> = Vec::new();
    read_roots.push(workspace_root.duplicate());
    assert(spec_paths(read_roots@) =~= seq![workspace_root@]);
    push_unique(&mut read_roots, effective_cwd);
    let mut write_roots: Vec<WorkspacePath> = Vec::new();
    match permission_policy {
        PermissionPolicy::ReadOnly => {
            assert(spec_paths(write_roots@) =~= Seq::<Seq<Seq<char>>>::empty());
        },
        PermissionPolicy::RepoWriteWithApproval | PermissionPolicy::Unrestricted => {
            push_unique(&mut read_roots, repo_root);
            write_roots.push(repo_root.duplicate());
            assert(spec_paths(write_roots@) =~= seq![repo_root@]);
            push_unique(&mut write_roots, artifact_root);
        },
        PermissionPolicy::WorkspaceWrite | PermissionPolicy::WorkspaceWriteWithApproval => {
            write_roots.push(effective_cwd.duplicate());
            assert(spec_paths(write_roots@) =~= seq![effective_cwd@]);
            push_unique(&mut write_roots, artifact_root);
        },
    }
    SandboxProfile { read_roots, write_roots, denied_roots, process_exec }
}

/// How the filesystem scope of a run was realized.
#[derive(Debug, Clone, Copy, PartialEq, Eq, Structural)]
pub enum WorkspaceScopeKind {
    Readonly,
    Local,
    Worktree,
    Remote,
    Container,
    Ephemeral,
}

/// The parts of a parent's execution context that govern its children.
#[derive(Debug)]
pub struct ExecutionContext {
    pub workspace_root: WorkspacePath,
    pub effective_cwd: WorkspacePath,
    pub artifact_root: WorkspacePath,
    pub workspace_scope: WorkspaceScopeKind,
    pub sandbox_profile: SandboxProfile,
    pub permission_policy: PermissionPolicy,
    pub network_policy: NetworkPolicy,
}

/// Why a child scope could not be derived from its parent.
#[derive(Debug, Clone, Copy, PartialEq, Eq, Structural)]
pub enum ContextInheritanceReason {
    /// The parent's context no longer matches the session workspace.
    ContextMismatch,
    /// The parent cannot read its own workspace root.
    ParentLacksRead,
    /// The child would write where the parent cannot.
    WidensAuthority,
    /// The child scope is not implemented.
    ScopeNotImplemented,
    /// The parent scope cannot be forked by the native harness.
    ForkUnsupported,
}

/// Refusals while preparing an execution scope.
#[derive(Debug, Clone, Copy, PartialEq, Eq, Structural)]
pub enum ScopeError {
    /// The mode is not supported at all.
    WorkspaceScopeUnsupported(WorkspaceMode),
    /// A child or fork cannot inherit the parent's context.
    ContextInheritanceUnsupported { requested: Option<WorkspaceMode>, reason: ContextInheritanceReason },
    /// A worktree scope was asked for without a prepared worktree.
    WorktreeMissing,
}

/// Whether the workspace mode can be prepared here.
pub open spec fn spec_mode_supported(mode: WorkspaceMode) -> bool {
    match mode {
        WorkspaceMode::RemoteWorker | WorkspaceMode::Containerized | WorkspaceMode::Ephemeral => false,
        _ => true,
    }
}

/// Refuse remote, containerized and ephemeral scopes.
pub fn reject_unsupported_scope(mode: WorkspaceMode) -> (res: Result<(), ScopeError>)
    ensures
        spec_mode_supported(mode) <==> res is Ok,
        res is Err ==> res == Err::<(), ScopeError>(ScopeError::WorkspaceScopeUnsupported(mode)),
{
    match mode {
        WorkspaceMode::RemoteWorker | WorkspaceMode::Containerized | WorkspaceMode::Ephemeral => Err(
            ScopeError::WorkspaceScopeUnsupported(mode),
        ),
        _ => Ok(()),
    }
}

/// How a workspace mode is realized (the worktree scope needs a prepared worktree).
pub fn workspace_scope_kind(mode: WorkspaceMode, has_worktree: bool) -> (res: Result<WorkspaceScopeKind, ScopeError>)
    ensures
        match mode {
            WorkspaceMode::Readonly => res == Ok::<WorkspaceScopeKind, ScopeError>(WorkspaceScopeKind::Readonly),
            WorkspaceMode::WorkspaceWrite | WorkspaceMode::RepoWriteWithApproval => res == Ok::<
                WorkspaceScopeKind,
                ScopeError,
            >(WorkspaceScopeKind::Local),
            WorkspaceMode::WorktreeWrite => if has_worktree {
                res == Ok::<WorkspaceScopeKind, ScopeError>(WorkspaceScopeKind::Worktree)
            } else {
                res == Err::<WorkspaceScopeKind, ScopeError>(ScopeError::WorktreeMissing)
            },
            _ => res == Err::<WorkspaceScopeKind, ScopeError>(ScopeError::WorkspaceScopeUnsupported(mode)),
        },
{
    match mode {
        WorkspaceMode::Readonly => Ok(WorkspaceScopeKind::Readonly),
        WorkspaceMode::WorkspaceWrite | WorkspaceMode::RepoWriteWithApproval => Ok(
            WorkspaceScopeKind::Local,
        ),
        WorkspaceMode::WorktreeWrite => if has_worktree {
            Ok(WorkspaceScopeKind::Worktree)
        } else {
            Err(ScopeError::WorktreeMissing)
        },
        _ => Err(ScopeError::WorkspaceScopeUnsupported(mode)),
    }
}

/// The filesystem authority a child writer gets under its parent's.
pub open spec fn spec_child_write_permission(parent: PermissionPolicy) -> PermissionPolicy {
    match parent {
        PermissionPolicy::WorkspaceWriteWithApproval | PermissionPolicy::RepoWriteWithApproval => PermissionPolicy::WorkspaceWriteWithApproval,
        PermissionPolicy::WorkspaceWrite | PermissionPolicy::Unrestricted => PermissionPolicy::WorkspaceWrite,
        PermissionPolicy::ReadOnly => PermissionPolicy::ReadOnly,
    }
}

fn child_workspace_write_permission(parent: PermissionPolicy) -> (p: PermissionPolicy)
    ensures
        p == spec_child_write_permission(parent),
{
    match parent {
        PermissionPolicy::WorkspaceWriteWithApproval | PermissionPolicy::RepoWriteWithApproval => PermissionPolicy::WorkspaceWriteWithApproval,
        PermissionPolicy::WorkspaceWrite | PermissionPolicy::Unrestricted => PermissionPolicy::WorkspaceWrite,
        PermissionPolicy::ReadOnly => PermissionPolicy::ReadOnly,
    }
}

/// Whether the parent may write at `path`.
pub open spec fn spec_parent_writes(parent: ExecutionContext, path: Seq<Seq<char>>) -> bool {
    parent.permission_policy != PermissionPolicy::ReadOnly && spec_path_allowed(
        spec_paths(parent.sandbox_profile.write_roots@),
        path,
    )
}

/// The authority of a child run derived from its parent's context: it must
/// be able to read its workspace root; a writing child must write only
/// where the parent writes; process and network authority are inherited.
pub open spec fn spec_compile_child_policy(
    parent: ExecutionContext,
    mode: WorkspaceMode,
    repo_root: Seq<Seq<char>>,
) -> Result<CompiledExecutionPolicy, ScopeError> {
    let refuse = |reason: ContextInheritanceReason| Err::<CompiledExecutionPolicy, ScopeError>(
        ScopeError::ContextInheritanceUnsupported { requested: Some(mode), reason },
    );
    let inherit = |permission: PermissionPolicy| Ok::<CompiledExecutionPolicy, ScopeError>(
        CompiledExecutionPolicy {
            permission_policy: permission,
            process_exec: parent.sandbox_profile.process_exec,
            network_policy: parent.network_policy,
        },
    );
    if !spec_path_allowed(spec_paths(parent.sandbox_profile.read_roots@), parent.workspace_root@) {
        refuse(ContextInheritanceReason::ParentLacksRead)
    } else {
        match mode {
            WorkspaceMode::Readonly => inherit(PermissionPolicy::ReadOnly),
            WorkspaceMode::WorkspaceWrite => if spec_parent_writes(parent, parent.workspace_root@) {
                inherit(spec_child_write_permission(parent.permission_policy))
            } else {
                refuse(ContextInheritanceReason::WidensAuthority)
            },
            WorkspaceMode::WorktreeWrite => if spec_parent_writes(parent, parent.effective_cwd@) {
                inherit(spec_child_write_permission(parent.permission_policy))
            } else {
                refuse(ContextInheritanceReason::WidensAuthority)
            },
            WorkspaceMode::RepoWriteWithApproval => if spec_parent_writes(parent, repo_root) {
                inherit(PermissionPolicy::RepoWriteWithApproval)
            } else {
                refuse(ContextInheritanceReason::WidensAuthority)
            },
            _ => refuse(ContextInheritanceReason::ScopeNotImplemented),
        }
    }
}

fn require_parent_write(parent: &ExecutionContext, path: &WorkspacePath) -> (res: bool)
    ensures
        res == spec_parent_writes(*parent, path@),
{
    parent.permission_policy != PermissionPolicy::ReadOnly && path_allowed(
        &parent.sandbox_profile.write_roots,
        path,
    )
}

/// Derive a child run's authority from its parent (see [`spec_compile_child_policy`]).
pub fn compile_child_execution_policy(
    parent: &ExecutionContext,
    mode: WorkspaceMode,
    repo_root: &WorkspacePath,
) -> (res: Result<CompiledExecutionPolicy, ScopeError>)
    ensures
        res == spec_compile_child_policy(*parent, mode, repo_root@),
{
    if !path_allowed(&parent.sandbox_profile.read_roots, &parent.workspace_root) {
        return Err(
            ScopeError::ContextInheritanceUnsupported {
                requested: Some(mode),
                reason: ContextInheritanceReason::ParentLacksRead,
            },
        );
    }
    let widens = ScopeError::ContextInheritanceUnsupported {
        requested: Some(mode),
        reason: ContextInheritanceReason::WidensAuthority,
    };
    let permission_policy = match mode {
        WorkspaceMode::Readonly => PermissionPolicy::ReadOnly,
        WorkspaceMode::WorkspaceWrite => {
            if !require_parent_write(parent, &parent.workspace_root) {
                return Err(widens);
            }
            child_workspace_write_permission(parent.permission_policy)
        },
        WorkspaceMode::WorktreeWrite => {
            if !require_parent_write(parent, &parent.effective_cwd) {
                return Err(widens);
            }
            child_workspace_write_permission(parent.permission_policy)
        },
        WorkspaceMode::RepoWriteWithApproval => {
            if !require_parent_write(parent, repo_root) {
                return Err(widens);
            }
            PermissionPolicy::RepoWriteWithApproval
        },
        _ => {
            return Err(
                ScopeError::ContextInheritanceUnsupported {
                    requested: Some(mode),
                    reason: ContextInheritanceReason::ScopeNotImplemented,
                },
            );
        },
    };
    Ok(
        CompiledExecutionPolicy {
            permission_policy,
            process_exec: parent.sandbox_profile.process_exec,
            network_policy: parent.network_policy,
        },
    )
}

/// The workspace mode under which a fork of a run with this context runs.
pub open spec fn spec_workspace_mode_for_fork(scope: WorkspaceScopeKind, permission: PermissionPolicy) -> Result<WorkspaceMode, ScopeError> {
    match scope {
        WorkspaceScopeKind::Readonly => Ok(WorkspaceMode::Readonly),
        WorkspaceScopeKind::Worktree => Ok(WorkspaceMode::WorktreeWrite),
        WorkspaceScopeKind::Local => if permission == PermissionPolicy::RepoWriteWithApproval {
            Ok(WorkspaceMode::RepoWriteWithApproval)
        } else {
            Ok(WorkspaceMode::WorkspaceWrite)
        },
        _ => Err(
            ScopeError::ContextInheritanceUnsupported {
                requested: None,
                reason: ContextInheritanceReason::ForkUnsupported,
            },
        ),
    }
}

/// The workspace mode of a fork (see [`spec_workspace_mode_for_fork`]).
pub fn workspace_mode_for_fork(parent: &ExecutionContext) -> (res: Result<WorkspaceMode, ScopeError>)
    ensures
        res == spec_workspace_mode_for_fork(parent.workspace_scope, parent.permission_policy),
{
    match parent.workspace_scope {
        WorkspaceScopeKind::Readonly => Ok(WorkspaceMode::Readonly),
        WorkspaceScopeKind::Worktree => Ok(WorkspaceMode::WorktreeWrite),
        WorkspaceScopeKind::Local => if parent.permission_policy == PermissionPolicy::RepoWriteWithApproval {
            Ok(WorkspaceMode::RepoWriteWithApproval)
        } else {
            Ok(WorkspaceMode::WorkspaceWrite)
        },
        _ => Err(
            ScopeError::ContextInheritanceUnsupported {
                requested: None,
                reason: ContextInheritanceReason::ForkUnsupported,
            },
        ),
    }
}

/// A child never gets write authority its parent lacks: a child that may
/// write comes from a writing parent that writes at the child's root; a
/// child whose parent needs approval to write needs it too; and process and
/// network authority are exactly the parent's.
pub proof fn law_child_never_widens_parent_authority(
    parent: ExecutionContext,
    mode: WorkspaceMode,
    repo_root: Seq<Seq<char>>,
)
    ensures
        spec_compile_child_policy(parent, mode, repo_root) matches Ok(c) ==> {
            &&& c.process_exec == parent.sandbox_profile.process_exec
            &&& c.network_policy == parent.network_policy
            &&& (c.permission_policy != PermissionPolicy::ReadOnly ==> parent.permission_policy
                != PermissionPolicy::ReadOnly)
            &&& (c.permission_policy != PermissionPolicy::ReadOnly ==> match mode {
                WorkspaceMode::WorkspaceWrite => spec_parent_writes(parent, parent.workspace_root@),
                WorkspaceMode::WorktreeWrite => spec_parent_writes(parent, parent.effective_cwd@),
                WorkspaceMode::RepoWriteWithApproval => spec_parent_writes(parent, repo_root),
                _ => false,
            })
            &&& ((parent.permission_policy == PermissionPolicy::WorkspaceWriteWithApproval
                || parent.permission_policy == PermissionPolicy::RepoWriteWithApproval)
                ==> c.permission_policy != PermissionPolicy::WorkspaceWrite
                && c.permission_policy != PermissionPolicy::Unrestricted)
        },
{
}

/// A read-only run has no write roots, and every sandbox lets a run read
/// its workspace root and its working directory.
pub proof fn law_sandbox_reads_workspace_and_read_only_writes_nothing(
    workspace_root: Seq<Seq<char>>,
    effective_cwd: Seq<Seq<char>>,
    artifact_root: Seq<Seq<char>>,
    repo_root: Seq<Seq<char>>,
    permission: PermissionPolicy,
)
    ensures
        spec_read_roots(workspace_root, effective_cwd, repo_root, permission).contains(workspace_root),
        spec_read_roots(workspace_root, effective_cwd, repo_root, permission).contains(effective_cwd),
        permission == PermissionPolicy::ReadOnly ==> spec_write_roots(effective_cwd, artifact_root, repo_root, permission).len() == 0,
        permission != PermissionPolicy::ReadOnly ==> spec_write_roots(effective_cwd, artifact_root, repo_root, permission).contains(artifact_root),
{
    let base = spec_push_unique(seq![workspace_root], effective_cwd);
    assert(seq![workspace_root][0] == workspace_root);
    assert(base.contains(workspace_root)) by {
        assert(base[0] == workspace_root);
    }
    assert(base.contains(effective_cwd)) by {
        if !seq![workspace_root].contains(effective_cwd) {
            assert(base[1] == effective_cwd);
        }
    }
    let r = spec_read_roots(workspace_root, effective_cwd, repo_root, permission);
    assert(r.contains(workspace_root) && r.contains(effective_cwd)) by {
        if r != base {
            let w1 = choose|i: int| 0 <= i < base.len() && base[i] == workspace_root;
            let w2 = choose|i: int| 0 <= i < base.len() && base[i] == effective_cwd;
            assert(r[w1] == workspace_root);
            assert(r[w2] == effective_cwd);
        }
    }
    if permission != PermissionPolicy::ReadOnly {
        let w = spec_write_roots(effective_cwd, artifact_root, repo_root, permission);
        let first = match permission {
            PermissionPolicy::RepoWriteWithApproval | PermissionPolicy::Unrestricted => repo_root,
            _ => effective_cwd,
        };
        if !seq![first].contains(artifact_root) {
            assert(w[1] == artifact_root);
        }
    }
}

/// A denied file write leaves a run read-only, whatever its mode.
pub proof fn law_denied_file_write_is_read_only(mode: WorkspaceMode, reason: String)
    ensures
        spec_permission_for(mode, PolicyDecision::Deny { reason }) == PermissionPolicy::ReadOnly,
{
}

/// Whether a workspace mode lets a run write workspace files at all.
pub open spec fn spec_mode_writes(mode: WorkspaceMode) -> bool {
    mode == WorkspaceMode::WorkspaceWrite || mode == WorkspaceMode::WorktreeWrite || mode
        == WorkspaceMode::RepoWriteWithApproval
}

/// Whether a filesystem authority writes only after approval.
pub open spec fn spec_needs_approval(p: PermissionPolicy) -> bool {
    p == PermissionPolicy::WorkspaceWriteWithApproval || p == PermissionPolicy::RepoWriteWithApproval
}

/// The file-write decision governs write authority: a run never compiles to
/// unrestricted authority; a mode that does not write stays read-only; in a
/// writing mode, a decision that requires approval yields authority that
/// still writes but only after approval, and an allowed write in a workspace
/// or worktree mode writes without approval; process and network authority
/// are closed exactly when their decision denies them.
pub proof fn law_file_write_decision_governs_write_authority(
    mode: WorkspaceMode,
    file_write: PolicyDecision,
    process_exec: PolicyDecision,
    network_access: PolicyDecision,
)
    ensures
        ({
            let c = spec_compile_execution_policy(mode, file_write, process_exec, network_access);
            &&& c.permission_policy != PermissionPolicy::Unrestricted
            &&& !spec_mode_writes(mode) ==> c.permission_policy == PermissionPolicy::ReadOnly
            &&& (spec_mode_writes(mode) && file_write is RequireApproval) ==> {
                &&& spec_needs_approval(c.permission_policy)
                &&& c.permission_policy != PermissionPolicy::WorkspaceWrite
                &&& c.permission_policy != PermissionPolicy::ReadOnly
            }
            &&& (spec_mode_writes(mode) && file_write is Allow) ==> c.permission_policy
                != PermissionPolicy::ReadOnly
            &&& ((mode == WorkspaceMode::WorkspaceWrite || mode == WorkspaceMode::WorktreeWrite)
                && file_write is Allow) ==> c.permission_policy == PermissionPolicy::WorkspaceWrite
            &&& (c.process_exec == ProcessExecPolicy::Denied <==> process_exec is Deny)
            &&& (c.network_policy == NetworkPolicy::Disabled <==> network_access is Deny)
        }),
{
}

/// A worktree run and a workspace run get the same authority from the same
/// decisions: writing in a worktree is governed exactly as writing in the
/// workspace.
pub proof fn law_worktree_write_is_governed_as_workspace_write(
    file_write: PolicyDecision,
    process_exec: PolicyDecision,
    network_access: PolicyDecision,
)
    ensures
        spec_compile_execution_policy(WorkspaceMode::WorktreeWrite, file_write, process_exec, network_access)
            == spec_compile_execution_policy(
            WorkspaceMode::WorkspaceWrite,
            file_write,
            process_exec,
            network_access,
        ),
{
}

/// A child that asks to write in its workspace or worktree, under a parent
/// that reads its workspace root and writes at the child's root, is given
/// write authority: never read-only and never unrestricted; it needs
/// approval exactly when the parent does, and it writes freely when the
/// parent writes freely.
pub proof fn law_writing_child_of_writing_parent_writes(
    parent: ExecutionContext,
    mode: WorkspaceMode,
    repo_root: Seq<Seq<char>>,
)
    requires
        mode == WorkspaceMode::WorkspaceWrite || mode == WorkspaceMode::WorktreeWrite,
        spec_path_allowed(spec_paths(parent.sandbox_profile.read_roots@), parent.workspace_root@),
        spec_parent_writes(
            parent,
            if mode == WorkspaceMode::WorkspaceWrite {
                parent.workspace_root@
            } else {
                parent.effective_cwd@
            },
        ),
    ensures
        spec_compile_child_policy(parent, mode, repo_root) matches Ok(c) && {
            &&& c.permission_policy != PermissionPolicy::ReadOnly
            &&& c.permission_policy != PermissionPolicy::Unrestricted
            &&& (spec_needs_approval(c.permission_policy) <==> spec_needs_approval(
                parent.permission_policy,
            ))
            &&& (parent.permission_policy == PermissionPolicy::WorkspaceWrite
                || parent.permission_policy == PermissionPolicy::Unrestricted) ==> c.permission_policy
                == PermissionPolicy::WorkspaceWrite
            &&& c.process_exec == parent.sandbox_profile.process_exec
            &&& c.network_policy == parent.network_policy
        },
{
}

} // verus!

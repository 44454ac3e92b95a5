//! The workspace resources that runs hold while they execute: worktrees and
//! file claims, what becomes of a worktree when its run ends, the protocol
//! form of workspace paths, and the clock that stamps commits.

use std::collections::BTreeMap;
use std::path::PathBuf;
use std::time::Duration;
use std::time::SystemTime;

use vstd::prelude::*;

use crate::claims::{ClaimKind, ClaimRegistry, ConflictWarning, FileClaimConflict, spec_conflicts, spec_conflict_views};
use crate::errors::RunExecutionError;
use crate::execution_policy::{reject_unsupported_scope, spec_mode_supported, ContextInheritanceReason, ScopeError};
use crate::run::{RunId, RunStatus, SessionId, WorkspaceMode};
use crate::scheduler::{lemma_u64_keys_ordered, spec_u64_keys_ordered};

verus! {

broadcast use {vstd::std_specs::btree::group_btree_axioms, vstd::laws_cmp::group_laws_cmp};

#[verifier::external_type_specification]
#[verifier::external_body]
pub struct ExPathBuf(PathBuf);

#[verifier::external_type_specification]
#[verifier::external_body]
pub struct ExSystemTime(SystemTime);

/// Where executions keep what they produce.
#[derive(Debug)]
pub struct RuntimeExecutionPaths {
    pub artifact_root: PathBuf,
}

/// `SystemTime::now`: a reading of the system clock. Nothing is promised of
/// the reading.
#[verifier::external_body]
fn system_time_now() -> SystemTime {
    SystemTime::now()
}

/// `SystemTime::duration_since` the Unix epoch: the time elapsed since the
/// epoch, or `None` when the reading lies before it. Nothing is promised of
/// the duration.
#[verifier::external_body]
fn elapsed_since_unix_epoch(t: &SystemTime) -> Option<Duration> {
    t.duration_since(std::time::UNIX_EPOCH).ok()
}

/// `Duration::as_millis`: the whole milliseconds of a duration. Nothing is
/// promised of the value.
#[verifier::external_body]
fn duration_millis(d: &Duration) -> u128 {
    d.as_millis()
}

/// A clock reading in milliseconds as the protocol records it: the whole
/// milliseconds since the Unix epoch truncated to 64 bits. A reading before
/// the epoch (`None`) has no such value and is reported as `None`.
pub fn epoch_millis(elapsed_ms: Option<u128>) -> (ms: Option<u64>)
    ensures
        ms == match elapsed_ms {
            Some(m) => Some(m as u64),
            None => None::<u64>,
        },
{
    match elapsed_ms {
        Some(m) => {
            #[verifier::truncate]
            let truncated = m as u64;
            Some(truncated)
        },
        None => None,
    }
}

/// The milliseconds since the Unix epoch by the system clock (see
/// [`epoch_millis`]), or `None` when the clock reads before the epoch. What
/// the clock reads is not stated.
pub fn current_time_ms() -> Option<u64> {
    let now = system_time_now();
    let elapsed = match elapsed_since_unix_epoch(&now) {
        Some(d) => Some(duration_millis(&d)),
        None => None,
    };
    epoch_millis(elapsed)
}

/// Whether a path uses `\` as its separator.
pub open spec fn spec_protocol_path(path: Seq<char>, backslash_separators: bool) -> Seq<char> {
    if backslash_separators {
        path.map_values(|c: char| if c == '\\' { '/' } else { c })
    } else {
        path
    }
}

/// The protocol form of a workspace path: on a platform whose separator is
/// `\`, every `\` becomes `/`; elsewhere the path is kept as it is.
pub fn platform_protocol_workspace_path(path: &str, backslash_separators: bool) -> (p: String)
    ensures
        p@ == spec_protocol_path(path@, backslash_separators),
{
    if !backslash_separators {
        return String::from_str(path);
    }
    let n = path.unicode_len();
    let mut out = String::new();
    let mut i: usize = 0;
    while i < n
        invariant
            n == path@.len(),
            0 <= i <= n,
            out@ == path@.take(i as int).map_values(|c: char| if c == '\\' { '/' } else { c }),
        decreases n - i,
    {
        let c = path.get_char(i);
        let ghost prev = out@;
        let ghost mapped = if c == '\\' { '/' } else { c };
        if c == '\\' {
            out.append("/");
            proof {
                reveal_strlit("/");
            }
            assert("/"@ =~= seq![mapped]);
        } else {
            let piece = path.substring_char(i, i + 1);
            out.append(piece);
            assert(piece@ =~= seq![mapped]);
        }
        assert(out@ =~= prev.push(mapped));
        assert(path@.take((i + 1) as int) =~= path@.take(i as int).push(c));
        assert(path@.take((i + 1) as int).map_values(|c: char| if c == '\\' { '/' } else { c }) =~= path@.take(
            i as int,
        ).map_values(|c: char| if c == '\\' { '/' } else { c }).push(mapped));
        i = i + 1;
    }
    assert(path@.take(n as int) == path@);
    out
}

/// The protocol form of a workspace path (see [`spec_protocol_path`]).
pub fn protocol_workspace_path(path: &str, backslash_separators: bool) -> (p: String)
    ensures
        p@ == spec_protocol_path(path@, backslash_separators),
{
    platform_protocol_workspace_path(path, backslash_separators)
}

/// What becomes of a run's worktree when the run ends.
#[derive(Debug, Clone, Copy, PartialEq, Eq, Structural)]
pub enum WorktreeCleanupPolicy {
    DeleteOnSuccess,
    DeleteOnTerminal,
    Keep,
    Manual,
}

/// The workspace a run asks to execute in: its scope, what becomes of a
/// worktree it gets, and the files it plans to write.
#[derive(Debug)]
pub struct ExecutionContextRequest {
    pub workspace_mode: WorkspaceMode,
    pub cleanup_policy: WorktreeCleanupPolicy,
    pub planned_write_files: Vec<String>,
}

impl ExecutionContextRequest {
    /// A request to write in the session's workspace itself, with no planned
    /// files; a worktree, should one be made, is deleted on success.
    pub fn workspace_write() -> (r: Self)
        ensures
            r.workspace_mode == WorkspaceMode::WorkspaceWrite,
            r.cleanup_policy == WorktreeCleanupPolicy::DeleteOnSuccess,
            r.planned_write_files@.len() == 0,
    {
        ExecutionContextRequest {
            workspace_mode: WorkspaceMode::WorkspaceWrite,
            cleanup_policy: WorktreeCleanupPolicy::DeleteOnSuccess,
            planned_write_files: Vec::new(),
        }
    }
}

/// What the store holds of a session's workspace.
#[derive(Debug, Clone, Copy, PartialEq, Eq, Structural)]
pub enum SessionWorkspaceLookup {
    /// The session does not exist.
    SessionMissing,
    /// The session names this workspace, which does not exist.
    WorkspaceMissing(u64),
    /// The session's workspace, and whether the user confirmed trust in it.
    Found { workspace_id: u64, trusted: bool },
}

/// The checks before a run's own execution context is prepared, in order:
/// the scope must be supported, the session and its workspace must exist,
/// and the user must have confirmed trust in the workspace. The result is
/// the workspace's id.
pub open spec fn spec_check_execution_workspace(
    mode: WorkspaceMode,
    session_id: SessionId,
    lookup: SessionWorkspaceLookup,
) -> Result<u64, RunExecutionError> {
    if !spec_mode_supported(mode) {
        Err(RunExecutionError::WorkspaceScope(ScopeError::WorkspaceScopeUnsupported(mode)))
    } else {
        match lookup {
            SessionWorkspaceLookup::SessionMissing => Err(RunExecutionError::SessionNotFound(session_id)),
            SessionWorkspaceLookup::WorkspaceMissing(w) => Err(RunExecutionError::SessionWorkspaceNotFound(w)),
            SessionWorkspaceLookup::Found { workspace_id, trusted } => if trusted {
                Ok(workspace_id)
            } else {
                Err(RunExecutionError::WorkspaceTrustRequired(workspace_id))
            },
        }
    }
}

/// Check a run's workspace before its context is prepared (see
/// [`spec_check_execution_workspace`]).
pub fn check_execution_workspace(mode: WorkspaceMode, session_id: SessionId, lookup: SessionWorkspaceLookup) -> (res:
    Result<u64, RunExecutionError>)
    ensures
        res == spec_check_execution_workspace(mode, session_id, lookup),
{
    if let Err(e) = reject_unsupported_scope(mode) {
        return Err(RunExecutionError::WorkspaceScope(e));
    }
    match lookup {
        SessionWorkspaceLookup::SessionMissing => Err(RunExecutionError::SessionNotFound(session_id)),
        SessionWorkspaceLookup::WorkspaceMissing(w) => Err(RunExecutionError::SessionWorkspaceNotFound(w)),
        SessionWorkspaceLookup::Found { workspace_id, trusted } => if trusted {
            Ok(workspace_id)
        } else {
            Err(RunExecutionError::WorkspaceTrustRequired(workspace_id))
        },
    }
}

/// The checks before a child's execution context is prepared from its
/// parent's, in order: the scope must be supported, the session and its
/// workspace must exist, and the workspace must still be the parent's (same
/// id and, `root_matches`, same root). Trust was settled for the parent.
pub open spec fn spec_check_child_workspace(
    mode: WorkspaceMode,
    session_id: SessionId,
    lookup: SessionWorkspaceLookup,
    parent_workspace_id: u64,
    root_matches: bool,
) -> Result<(), RunExecutionError> {
    if !spec_mode_supported(mode) {
        Err(RunExecutionError::WorkspaceScope(ScopeError::WorkspaceScopeUnsupported(mode)))
    } else {
        match lookup {
            SessionWorkspaceLookup::SessionMissing => Err(RunExecutionError::SessionNotFound(session_id)),
            SessionWorkspaceLookup::WorkspaceMissing(w) => Err(RunExecutionError::SessionWorkspaceNotFound(w)),
            SessionWorkspaceLookup::Found { workspace_id, .. } => if workspace_id == parent_workspace_id
                && root_matches {
                Ok(())
            } else {
                Err(
                    RunExecutionError::WorkspaceScope(
                        ScopeError::ContextInheritanceUnsupported {
                            requested: Some(mode),
                            reason: ContextInheritanceReason::ContextMismatch,
                        },
                    ),
                )
            },
        }
    }
}

/// Check a child's workspace before its context is prepared (see
/// [`spec_check_child_workspace`]).
pub fn check_child_workspace(
    mode: WorkspaceMode,
    session_id: SessionId,
    lookup: SessionWorkspaceLookup,
    parent_workspace_id: u64,
    root_matches: bool,
) -> (res: Result<(), RunExecutionError>)
    ensures
        res == spec_check_child_workspace(mode, session_id, lookup, parent_workspace_id, root_matches),
{
    if let Err(e) = reject_unsupported_scope(mode) {
        return Err(RunExecutionError::WorkspaceScope(e));
    }
    match lookup {
        SessionWorkspaceLookup::SessionMissing => Err(RunExecutionError::SessionNotFound(session_id)),
        SessionWorkspaceLookup::WorkspaceMissing(w) => Err(RunExecutionError::SessionWorkspaceNotFound(w)),
        SessionWorkspaceLookup::Found { workspace_id, .. } => if workspace_id == parent_workspace_id
            && root_matches {
            Ok(())
        } else {
            Err(
                RunExecutionError::WorkspaceScope(
                    ScopeError::ContextInheritanceUnsupported {
                        requested: Some(mode),
                        reason: ContextInheritanceReason::ContextMismatch,
                    },
                ),
            )
        },
    }
}

/// The workspace resources a running run holds: its worktree, if it got
/// one, and whether it holds a file claim.
#[derive(Debug, Clone, Copy, PartialEq, Eq, Structural)]
pub struct WorkspaceRunResources {
    pub worktree: Option<u64>,
    pub claim: bool,
}

/// How a worktree is marked when its run ends.
#[derive(Debug, Clone, Copy, PartialEq, Eq, Structural)]
pub enum WorktreeOutcome {
    Success,
    Failed,
    Cancelled,
    Terminal,
}

/// The mark a worktree gets for its run's final status: completed runs
/// succeed, failed or over-budget runs fail, cancelled runs are cancelled,
/// and anything else is merely terminal.
pub open spec fn spec_worktree_outcome(status: RunStatus) -> WorktreeOutcome {
    match status {
        RunStatus::Completed => WorktreeOutcome::Success,
        RunStatus::Failed | RunStatus::BudgetExceeded => WorktreeOutcome::Failed,
        RunStatus::Cancelled => WorktreeOutcome::Cancelled,
        _ => WorktreeOutcome::Terminal,
    }
}

/// The mark a worktree gets for its run's final status.
pub fn worktree_outcome(status: RunStatus) -> (o: WorktreeOutcome)
    ensures
        o == spec_worktree_outcome(status),
{
    match status {
        RunStatus::Completed => WorktreeOutcome::Success,
        RunStatus::Failed | RunStatus::BudgetExceeded => WorktreeOutcome::Failed,
        RunStatus::Cancelled => WorktreeOutcome::Cancelled,
        _ => WorktreeOutcome::Terminal,
    }
}

/// What a finished run gives back.
#[derive(Debug, Clone, Copy)]
pub struct FinishedWorkspaceRun {
    /// The run's file claim is released.
    pub release_claim: bool,
    /// The run's worktree and the mark it gets.
    pub worktree: Option<(u64, WorktreeOutcome)>,
}

/// The workspace resources of the running runs.
#[derive(Debug)]
pub struct WorkspaceRunRegistry {
    inner: BTreeMap<RunId, WorkspaceRunResources>,
}

impl WorkspaceRunRegistry {
    /// The resources by run.
    pub closed spec fn view(&self) -> Map<RunId, WorkspaceRunResources> {
        self.inner@
    }

    /// A registry holds finitely many runs.
    pub proof fn lemma_finite(&self)
        ensures
            self@.dom().finite(),
    {
    }

    /// No run holds resources.
    pub fn new() -> (r: Self)
        ensures
            r@ == Map::<RunId, WorkspaceRunResources>::empty(),
    {
        WorkspaceRunRegistry { inner: BTreeMap::new() }
    }

    /// Record the resources of a run, replacing what it held before: the
    /// count grows by one exactly when the run held nothing.
    pub fn insert(&mut self, run_id: RunId, resources: WorkspaceRunResources)
        ensures
            final(self)@ == old(self)@.insert(run_id, resources),
            final(self)@.dom().finite(),
            final(self)@.len() == old(self)@.len() + if old(self)@.contains_key(run_id) {
                0int
            } else {
                1int
            },
    {
        proof { lemma_u64_keys_ordered(); }
        self.inner.insert(run_id, resources);
    }

    /// Take back a finished run's resources: nothing when it held none;
    /// otherwise its claim is to be released and its worktree marked for
    /// the run's final status.
    pub fn finish(&mut self, run_id: RunId, status: RunStatus) -> (f: Option<FinishedWorkspaceRun>)
        ensures
            final(self)@ == old(self)@.remove(run_id),
            final(self)@.dom().finite(),
            final(self)@.len() == old(self)@.len() - if old(self)@.contains_key(run_id) {
                1int
            } else {
                0int
            },
            !old(self)@.contains_key(run_id) ==> f is None,
            old(self)@.contains_key(run_id) ==> f == Some(
                FinishedWorkspaceRun {
                    release_claim: old(self)@[run_id].claim,
                    worktree: match old(self)@[run_id].worktree {
                        Some(w) => Some((w, spec_worktree_outcome(status))),
                        None => None,
                    },
                },
            ),
    {
        proof { lemma_u64_keys_ordered(); }
        match self.inner.remove(&run_id) {
            None => None,
            Some(resources) => {
                let worktree = match resources.worktree {
                    Some(w) => Some((w, worktree_outcome(status))),
                    None => None,
                };
                Some(FinishedWorkspaceRun { release_claim: resources.claim, worktree })
            },
        }
    }

    /// The number of runs that hold resources.
    pub fn active_count(&self) -> (n: usize)
        ensures
            n == self@.len(),
            self@.dom().finite(),
    {
        proof { lemma_u64_keys_ordered(); }
        self.inner.len()
    }
}

/// The conflicts in protocol form.
pub open spec fn spec_protocol_conflicts(cs: Seq<(Seq<char>, RunId)>, backslash_separators: bool) -> Seq<
    (Seq<char>, RunId),
> {
    cs.map_values(|c: (Seq<char>, RunId)| (spec_protocol_path(c.0, backslash_separators), c.1))
}

/// The claimed files of a dispatch, in protocol form.
pub open spec fn spec_protocol_files(files: Seq<Seq<char>>, backslash_separators: bool) -> Seq<Seq<char>> {
    files.map_values(|f: Seq<char>| spec_protocol_path(f, backslash_separators))
}

fn protocol_conflict_warning(warning: ConflictWarning, backslash_separators: bool) -> (w: ConflictWarning)
    ensures
        w.requesting_capsule == warning.requesting_capsule,
        spec_conflict_views(w.conflicts@) == spec_protocol_conflicts(
            spec_conflict_views(warning.conflicts@),
            backslash_separators,
        ),
{
    let mut conflicts: Vec<FileClaimConflict> = Vec::new();
    let mut i: usize = 0;
    while i < warning.conflicts.len()
        invariant
            0 <= i <= warning.conflicts.len(),
            spec_conflict_views(conflicts@) == spec_protocol_conflicts(
                spec_conflict_views(warning.conflicts@.take(i as int)),
                backslash_separators,
            ),
        decreases warning.conflicts.len() - i,
    {
        let c = &warning.conflicts[i];
        let ghost prev = conflicts@;
        let ghost prefix = spec_conflict_views(warning.conflicts@.take(i as int));
        conflicts.push(
            FileClaimConflict {
                file: protocol_workspace_path(c.file.as_str(), backslash_separators),
                holding_capsule: c.holding_capsule,
                holding_kind: ClaimKind::Write,
            },
        );
        assert(warning.conflicts@.take((i + 1) as int) == warning.conflicts@.take(i as int).push(
            warning.conflicts@[i as int],
        ));
        assert(spec_conflict_views(conflicts@) =~= spec_conflict_views(prev).push(
            (spec_protocol_path(c.file@, backslash_separators), c.holding_capsule),
        ));
        assert(spec_conflict_views(warning.conflicts@.take((i + 1) as int)) =~= prefix.push(
            (c.file@, c.holding_capsule),
        ));
        assert(spec_conflict_views(conflicts@) =~= spec_protocol_conflicts(
            spec_conflict_views(warning.conflicts@.take((i + 1) as int)),
            backslash_separators,
        ));
        i = i + 1;
    }
    assert(warning.conflicts@.take(warning.conflicts.len() as int) == warning.conflicts@);
    ConflictWarning { requesting_capsule: warning.requesting_capsule, conflicts }
}

/// Claim a dispatched run's planned write files and record the run's
/// workspace resources. No planned files means no claim and no warning;
/// otherwise the files are claimed, and both they and the warning's
/// conflicts are returned in protocol form. A run with a worktree or a
/// claim is recorded as holding them.
pub fn claim_dispatch_files(
    claims: &mut ClaimRegistry,
    runs: &mut WorkspaceRunRegistry,
    run_id: RunId,
    worktree: Option<u64>,
    planned_write_files: Vec<String>,
    backslash_separators: bool,
) -> (res: (Vec<String>, Option<ConflictWarning>))
    ensures
        planned_write_files@.len() == 0 ==> {
            &&& final(claims)@ == old(claims)@
            &&& res.0@.len() == 0
            &&& res.1 is None
        },
        planned_write_files@.len() > 0 ==> {
            let files = planned_write_files@.map_values(|f: String| f@);
            let conflicts = spec_conflicts(old(claims)@, run_id, files);
            &&& final(claims)@ == old(claims)@.push((run_id, files))
            &&& res.0@.map_values(|f: String| f@) == spec_protocol_files(files, backslash_separators)
            &&& (conflicts.len() == 0 ==> res.1 is None)
            &&& (conflicts.len() > 0 ==> (res.1 matches Some(w) && w.requesting_capsule == run_id
                && spec_conflict_views(w.conflicts@) == spec_protocol_conflicts(conflicts, backslash_separators)))
        },
        (worktree is Some || planned_write_files@.len() > 0) ==> final(runs)@ == old(runs)@.insert(
            run_id,
            WorkspaceRunResources { worktree, claim: planned_write_files@.len() > 0 },
        ),
        !(worktree is Some || planned_write_files@.len() > 0) ==> final(runs)@ == old(runs)@,
{
    let has_claim = planned_write_files.len() > 0;
    let (claimed_files, warning) = if !has_claim {
        (Vec::new(), None)
    } else {
        let (files, warning) = claims.claim(run_id, planned_write_files);
        let mut claimed: Vec<String> = Vec::new();
        let mut i: usize = 0;
        while i < files.len()
            invariant
                0 <= i <= files.len(),
                claimed@.map_values(|f: String| f@) == spec_protocol_files(
                    files@.map_values(|f: String| f@).take(i as int),
                    backslash_separators,
                ),
            decreases files.len() - i,
        {
            let ghost prev = claimed@;
            claimed.push(protocol_workspace_path(files[i].as_str(), backslash_separators));
            assert(claimed@.map_values(|f: String| f@) =~= prev.map_values(|f: String| f@).push(
                spec_protocol_path(files@[i as int]@, backslash_separators),
            ));
            assert(files@.map_values(|f: String| f@).take((i + 1) as int) == files@.map_values(
                |f: String| f@,
            ).take(i as int).push(files@[i as int]@));
            assert(claimed@.map_values(|f: String| f@) =~= spec_protocol_files(
                files@.map_values(|f: String| f@).take((i + 1) as int),
                backslash_separators,
            ));
            i = i + 1;
        }
        assert(files@.map_values(|f: String| f@).take(files.len() as int) == files@.map_values(
            |f: String| f@,
        ));
        let warning = match warning {
            Some(w) => Some(protocol_conflict_warning(w, backslash_separators)),
            None => None,
        };
        (claimed, warning)
    };
    if worktree.is_some() || has_claim {
        runs.insert(run_id, WorkspaceRunResources { worktree, claim: has_claim });
    }
    (claimed_files, warning)
}

/// Give back a finished run's workspace resources: its claim is released
/// and its worktree, if any, is returned with the mark it gets.
pub fn finish_workspace_run(
    claims: &mut ClaimRegistry,
    runs: &mut WorkspaceRunRegistry,
    run_id: RunId,
    status: RunStatus,
) -> (worktree: Option<(u64, WorktreeOutcome)>)
    ensures
        final(runs)@ == old(runs)@.remove(run_id),
        old(runs)@.contains_key(run_id) && old(runs)@[run_id].claim ==> final(claims)@ == old(claims)@.filter(
            |c: (RunId, Seq<Seq<char>>)| c.0 != run_id,
        ),
        !(old(runs)@.contains_key(run_id) && old(runs)@[run_id].claim) ==> final(claims)@ == old(claims)@,
        worktree == (if old(runs)@.contains_key(run_id) {
            match old(runs)@[run_id].worktree {
                Some(w) => Some((w, spec_worktree_outcome(status))),
                None => None,
            }
        } else {
            None
        }),
{
    match runs.finish(run_id, status) {
        None => None,
        Some(finished) => {
            if finished.release_claim {
                claims.release(run_id);
            }
            finished.worktree
        },
    }
}

} // verus!

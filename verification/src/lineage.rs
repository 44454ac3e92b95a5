//! The checks before a run is derived from another one: forking it at an
//! event, continuing a finished fork, spawning or joining a fresh child,
//! starting a native subagent, switching a failed run to another route,
//! and settling a freshly started run against what its provider did.

use vstd::prelude::*;

use crate::errors::{NotResumableReason, RunExecutionError};
use crate::run::{RunHarnessKind, RunId, RunRecord, RunSource, RunStatus, SessionId, WorkspaceMode};
use crate::scheduler::RunSchedulingPolicy;
use crate::text::{spec_trim, trimmed};

verus! {

/// The record behind an optional reference, as a value.
pub open spec fn spec_opt_run(run: Option<&RunRecord>) -> Option<RunRecord> {
    match run {
        Some(r) => Some(*r),
        None => None,
    }
}

/// The checks on a fork's parent, in order: the request must name this
/// session; the parent must exist, belong to it and run natively; it must
/// have events, the fork sequence must be one of them (from one to the
/// latest), and the event log must hold an event at exactly that sequence
/// (`fork_event_seq` is the sequence of the first parent event at or after it).
pub open spec fn spec_check_fork_parent(
    request_session_id: SessionId,
    session_id: SessionId,
    parent_run_id: RunId,
    parent: Option<RunRecord>,
    parent_event_seq: u64,
    fork_event_seq: Option<u64>,
) -> Result<(), RunExecutionError> {
    if request_session_id != session_id {
        Err(RunExecutionError::RunSessionMismatch(parent_run_id))
    } else {
        match parent {
            None => Err(RunExecutionError::RunNotFound(parent_run_id)),
            Some(p) => if p.session_id != session_id {
                Err(RunExecutionError::RunSessionMismatch(p.id))
            } else if p.harness != RunHarnessKind::Native {
                Err(RunExecutionError::RunNotNativeHarness(p.id))
            } else if p.last_event_seq is None || parent_event_seq == 0 || parent_event_seq > p.last_event_seq->0
                || fork_event_seq != Some(parent_event_seq) {
                Err(RunExecutionError::RunForkPointNotFound { run_id: p.id, boundary: parent_event_seq })
            } else {
                Ok(())
            },
        }
    }
}

/// Check a fork's parent (see [`spec_check_fork_parent`]).
pub fn check_fork_parent(
    request_session_id: SessionId,
    session_id: SessionId,
    parent_run_id: RunId,
    parent: Option<&RunRecord>,
    parent_event_seq: u64,
    fork_event_seq: Option<u64>,
) -> (r: Result<(), RunExecutionError>)
    ensures
        r == spec_check_fork_parent(
            request_session_id,
            session_id,
            parent_run_id,
            spec_opt_run(parent),
            parent_event_seq,
            fork_event_seq,
        ),
{
    if request_session_id != session_id {
        return Err(RunExecutionError::RunSessionMismatch(parent_run_id));
    }
    let p = match parent {
        None => {
            return Err(RunExecutionError::RunNotFound(parent_run_id));
        },
        Some(p) => p,
    };
    if p.session_id != session_id {
        return Err(RunExecutionError::RunSessionMismatch(p.id));
    }
    if p.harness != RunHarnessKind::Native {
        return Err(RunExecutionError::RunNotNativeHarness(p.id));
    }
    let latest = match p.last_event_seq {
        None => {
            return Err(RunExecutionError::RunForkPointNotFound { run_id: p.id, boundary: parent_event_seq });
        },
        Some(l) => l,
    };
    let found = match fork_event_seq {
        Some(s) => s == parent_event_seq,
        None => false,
    };
    if parent_event_seq == 0 || parent_event_seq > latest || !found {
        return Err(RunExecutionError::RunForkPointNotFound { run_id: p.id, boundary: parent_event_seq });
    }
    Ok(())
}

/// The objective of a fork: the requested one, trimmed, when given (a blank
/// one is refused); otherwise the parent's, which must not be blank either.
pub open spec fn spec_fork_objective(requested: Option<Seq<char>>, parent_objective: Seq<char>) -> Result<Seq<char>, ()> {
    match requested {
        Some(o) => if spec_trim(o).len() == 0 {
            Err(())
        } else {
            Ok(spec_trim(o))
        },
        None => if spec_trim(parent_objective).len() == 0 {
            Err(())
        } else {
            Ok(parent_objective)
        },
    }
}

/// The objective of a fork (see [`spec_fork_objective`]).
pub fn fork_objective(requested: Option<&str>, parent_objective: &str) -> (r: Result<String, RunExecutionError>)
    ensures
        match spec_fork_objective(
            match requested {
                Some(o) => Some(o@),
                None => None,
            },
            parent_objective@,
        ) {
            Ok(o) => r matches Ok(s) && s@ == o,
            Err(()) => r matches Err(RunExecutionError::EmptyRunObjective),
        },
{
    match requested {
        Some(o) => {
            let t = trimmed(o);
            if t.as_str().unicode_len() == 0 {
                Err(RunExecutionError::EmptyRunObjective)
            } else {
                Ok(t)
            }
        },
        None => {
            let t = trimmed(parent_objective);
            if t.as_str().unicode_len() == 0 {
                Err(RunExecutionError::EmptyRunObjective)
            } else {
                Ok(String::from_str(parent_objective))
            }
        },
    }
}

/// The checks before a finished fork is continued with a new message, in
/// order: the request must name this session; the message must not be
/// blank; the run must belong to the session, be a native fork, and have
/// finished. The result is the trimmed message.
pub open spec fn spec_check_continue(
    request_session_id: SessionId,
    session_id: SessionId,
    run_id: RunId,
    message: Seq<char>,
    run: RunRecord,
) -> Result<Seq<char>, RunExecutionError> {
    if request_session_id != session_id {
        Err(RunExecutionError::RunSessionMismatch(run_id))
    } else if spec_trim(message).len() == 0 {
        Err(RunExecutionError::EmptyRunObjective)
    } else if run.session_id != session_id {
        Err(RunExecutionError::RunSessionMismatch(run.id))
    } else if run.harness != RunHarnessKind::Native || !(run.source is Forked) {
        Err(RunExecutionError::RunNotNativeHarness(run.id))
    } else if !run.status.spec_is_terminal() {
        Err(RunExecutionError::RunNotResumable { run_id: run.id, reason: NotResumableReason::StillOpen })
    } else {
        Ok(spec_trim(message))
    }
}

/// Whether `r` reports what `s` decides, texts by their views.
pub open spec fn spec_text_result(r: Result<String, RunExecutionError>, s: Result<Seq<char>, RunExecutionError>) -> bool {
    match s {
        Ok(t) => r matches Ok(x) && x@ == t,
        Err(e) => r == Err::<String, RunExecutionError>(e),
    }
}

/// Check a continuation of a finished fork (see [`spec_check_continue`]).
pub fn check_continue(
    request_session_id: SessionId,
    session_id: SessionId,
    run_id: RunId,
    message: &str,
    run: &RunRecord,
) -> (r: Result<String, RunExecutionError>)
    ensures
        spec_text_result(r, spec_check_continue(request_session_id, session_id, run_id, message@, *run)),
{
    if request_session_id != session_id {
        return Err(RunExecutionError::RunSessionMismatch(run_id));
    }
    let m = trimmed(message);
    if m.as_str().unicode_len() == 0 {
        return Err(RunExecutionError::EmptyRunObjective);
    }
    if run.session_id != session_id {
        return Err(RunExecutionError::RunSessionMismatch(run.id));
    }
    let forked = match &run.source {
        RunSource::Forked { .. } => true,
        _ => false,
    };
    if run.harness != RunHarnessKind::Native || !forked {
        return Err(RunExecutionError::RunNotNativeHarness(run.id));
    }
    if !run.status.is_terminal() {
        return Err(RunExecutionError::RunNotResumable { run_id: run.id, reason: NotResumableReason::StillOpen });
    }
    Ok(m)
}

/// The checks before a fresh child is spawned: the request must name this
/// session, and the parent must exist and belong to it.
pub open spec fn spec_check_spawn_parent(
    request_session_id: SessionId,
    session_id: SessionId,
    parent_run_id: RunId,
    parent: Option<RunRecord>,
) -> Result<(), RunExecutionError> {
    if request_session_id != session_id {
        Err(RunExecutionError::RunSessionMismatch(request_session_id))
    } else {
        match parent {
            None => Err(RunExecutionError::RunNotFound(parent_run_id)),
            Some(p) => if p.session_id != session_id {
                Err(RunExecutionError::RunSessionMismatch(p.id))
            } else {
                Ok(())
            },
        }
    }
}

/// Check a spawn's parent (see [`spec_check_spawn_parent`]).
pub fn check_spawn_parent(
    request_session_id: SessionId,
    session_id: SessionId,
    parent_run_id: RunId,
    parent: Option<&RunRecord>,
) -> (r: Result<(), RunExecutionError>)
    ensures
        r == spec_check_spawn_parent(request_session_id, session_id, parent_run_id, spec_opt_run(parent)),
{
    if request_session_id != session_id {
        return Err(RunExecutionError::RunSessionMismatch(request_session_id));
    }
    match parent {
        None => Err(RunExecutionError::RunNotFound(parent_run_id)),
        Some(p) => if p.session_id != session_id {
            Err(RunExecutionError::RunSessionMismatch(p.id))
        } else {
            Ok(())
        },
    }
}

/// The checks before a fresh child is joined: the request must name this
/// session, and the child must exist, belong to it, and be a fresh spawn of
/// the named parent (any other run is reported as not found).
pub open spec fn spec_check_join(
    request_session_id: SessionId,
    session_id: SessionId,
    child_run_id: RunId,
    parent_run_id: RunId,
    child: Option<RunRecord>,
) -> Result<(), RunExecutionError> {
    if request_session_id != session_id {
        Err(RunExecutionError::RunSessionMismatch(request_session_id))
    } else {
        match child {
            None => Err(RunExecutionError::RunNotFound(child_run_id)),
            Some(c) => if c.session_id != session_id {
                Err(RunExecutionError::RunSessionMismatch(c.id))
            } else if !(c.source matches RunSource::FreshSpawn { parent_run_id: p, .. } && p == parent_run_id) {
                Err(RunExecutionError::RunNotFound(child_run_id))
            } else {
                Ok(())
            },
        }
    }
}

/// Check a join (see [`spec_check_join`]).
pub fn check_join(
    request_session_id: SessionId,
    session_id: SessionId,
    child_run_id: RunId,
    parent_run_id: RunId,
    child: Option<&RunRecord>,
) -> (r: Result<(), RunExecutionError>)
    ensures
        r == spec_check_join(request_session_id, session_id, child_run_id, parent_run_id, spec_opt_run(child)),
{
    if request_session_id != session_id {
        return Err(RunExecutionError::RunSessionMismatch(request_session_id));
    }
    let c = match child {
        None => {
            return Err(RunExecutionError::RunNotFound(child_run_id));
        },
        Some(c) => c,
    };
    if c.session_id != session_id {
        return Err(RunExecutionError::RunSessionMismatch(c.id));
    }
    let spawned = match &c.source {
        RunSource::FreshSpawn { parent_run_id: p, .. } => *p == parent_run_id,
        _ => false,
    };
    if !spawned {
        return Err(RunExecutionError::RunNotFound(child_run_id));
    }
    Ok(())
}

/// The checks on a native subagent's parent: it must exist, belong to the
/// session, be running under a live execution (`live_running`), and run
/// natively.
pub open spec fn spec_check_native_child_parent(
    session_id: SessionId,
    parent_run_id: RunId,
    parent: Option<RunRecord>,
    live_running: bool,
) -> Result<(), RunExecutionError> {
    match parent {
        None => Err(RunExecutionError::RunNotFound(parent_run_id)),
        Some(p) => if p.session_id != session_id {
            Err(RunExecutionError::RunSessionMismatch(p.id))
        } else if p.status != RunStatus::Running || !live_running {
            Err(RunExecutionError::RunNotLiveOwned(p.id))
        } else if p.harness != RunHarnessKind::Native {
            Err(RunExecutionError::RunNotNativeHarness(p.id))
        } else {
            Ok(())
        },
    }
}

/// Check a native subagent's parent (see [`spec_check_native_child_parent`]).
pub fn check_native_child_parent(
    session_id: SessionId,
    parent_run_id: RunId,
    parent: Option<&RunRecord>,
    live_running: bool,
) -> (r: Result<(), RunExecutionError>)
    ensures
        r == spec_check_native_child_parent(session_id, parent_run_id, spec_opt_run(parent), live_running),
{
    match parent {
        None => Err(RunExecutionError::RunNotFound(parent_run_id)),
        Some(p) => if p.session_id != session_id {
            Err(RunExecutionError::RunSessionMismatch(p.id))
        } else if p.status != RunStatus::Running || !live_running {
            Err(RunExecutionError::RunNotLiveOwned(p.id))
        } else if p.harness != RunHarnessKind::Native {
            Err(RunExecutionError::RunNotNativeHarness(p.id))
        } else {
            Ok(())
        },
    }
}

/// How a native subagent competes for its session: one that writes in its
/// own worktree runs beside others; any other waits behind busy sessions.
pub fn child_scheduling_policy(workspace_scope: WorkspaceMode) -> (p: RunSchedulingPolicy)
    ensures
        p == (if workspace_scope == WorkspaceMode::WorktreeWrite {
            RunSchedulingPolicy::ParallelIfBusy
        } else {
            RunSchedulingPolicy::QueueIfBusy
        }),
{
    match workspace_scope {
        WorkspaceMode::WorktreeWrite => RunSchedulingPolicy::ParallelIfBusy,
        _ => RunSchedulingPolicy::QueueIfBusy,
    }
}

/// The checks before a failed run continues on another route, in order:
/// the request must name this session; the run must exist, belong to it,
/// run natively, have failed, come from a user, a fork or an earlier route
/// switch, have events, and its last event must report the failure of an
/// exhausted route. The result is the sequence of that last event.
pub open spec fn spec_check_route_switch(
    request_session_id: SessionId,
    session_id: SessionId,
    parent_run_id: RunId,
    parent: Option<RunRecord>,
    last_event_reports_exhaustion: bool,
) -> Result<u64, RunExecutionError> {
    if request_session_id != session_id {
        Err(RunExecutionError::RunSessionMismatch(parent_run_id))
    } else {
        match parent {
            None => Err(RunExecutionError::RunNotFound(parent_run_id)),
            Some(p) => if p.session_id != session_id {
                Err(RunExecutionError::RunSessionMismatch(p.id))
            } else if p.harness != RunHarnessKind::Native || p.status != RunStatus::Failed || !(p.source is User
                || p.source is Forked || p.source is RouteSwitchedContinuation) || p.last_event_seq is None
                || !last_event_reports_exhaustion {
                Err(RunExecutionError::RunNotRouteExhausted(p.id))
            } else {
                Ok(p.last_event_seq->0)
            },
        }
    }
}

/// Check a route switch (see [`spec_check_route_switch`]).
pub fn check_route_switch(
    request_session_id: SessionId,
    session_id: SessionId,
    parent_run_id: RunId,
    parent: Option<&RunRecord>,
    last_event_reports_exhaustion: bool,
) -> (r: Result<u64, RunExecutionError>)
    ensures
        r == spec_check_route_switch(
            request_session_id,
            session_id,
            parent_run_id,
            spec_opt_run(parent),
            last_event_reports_exhaustion,
        ),
{
    if request_session_id != session_id {
        return Err(RunExecutionError::RunSessionMismatch(parent_run_id));
    }
    let p = match parent {
        None => {
            return Err(RunExecutionError::RunNotFound(parent_run_id));
        },
        Some(p) => p,
    };
    if p.session_id != session_id {
        return Err(RunExecutionError::RunSessionMismatch(p.id));
    }
    let eligible_source = match &p.source {
        RunSource::User { .. } | RunSource::Forked { .. } | RunSource::RouteSwitchedContinuation { .. } => true,
        _ => false,
    };
    if p.harness != RunHarnessKind::Native || p.status != RunStatus::Failed || !eligible_source {
        return Err(RunExecutionError::RunNotRouteExhausted(p.id));
    }
    match p.last_event_seq {
        None => Err(RunExecutionError::RunNotRouteExhausted(p.id)),
        Some(seq) => if !last_event_reports_exhaustion {
            Err(RunExecutionError::RunNotRouteExhausted(p.id))
        } else {
            Ok(seq)
        },
    }
}

/// What a caller does once a started run's provider call returned.
#[derive(Debug, Clone, Copy, PartialEq, Eq, Structural)]
pub enum AfterProviderStart {
    /// The start failed while the run is still running: fail the live run.
    FailLive,
    /// Report the run as it now stands in the store.
    TakeLatest,
    /// The run was cancelled meanwhile: report it as it was committed.
    KeepCommitted,
}

/// Settle a freshly started run: a failed start of a run that is still
/// running fails it; otherwise the stored state is reported unless the run
/// was cancelled meanwhile.
pub fn after_provider_start(start_succeeded: bool, latest_status: RunStatus) -> (a: AfterProviderStart)
    ensures
        !start_succeeded && latest_status == RunStatus::Running ==> a == AfterProviderStart::FailLive,
        (start_succeeded || latest_status != RunStatus::Running) && latest_status != RunStatus::Cancelled ==> a
            == AfterProviderStart::TakeLatest,
        (start_succeeded || latest_status != RunStatus::Running) && latest_status == RunStatus::Cancelled ==> a
            == AfterProviderStart::KeepCommitted,
{
    if !start_succeeded && latest_status == RunStatus::Running {
        AfterProviderStart::FailLive
    } else if latest_status != RunStatus::Cancelled {
        AfterProviderStart::TakeLatest
    } else {
        AfterProviderStart::KeepCommitted
    }
}

/// Only a finished fork can be continued, and only by a message that is not blank.
pub proof fn law_only_finished_forks_continue(
    request_session_id: SessionId,
    session_id: SessionId,
    run_id: RunId,
    message: Seq<char>,
    run: RunRecord,
)
    ensures
        spec_check_continue(request_session_id, session_id, run_id, message, run) is Ok ==> {
            &&& run.status.spec_is_terminal()
            &&& run.source is Forked
            &&& spec_trim(message).len() > 0
        },
{
}



/// The route a run executes on: its runtime profile, provider, model,
/// credentials and harness.
#[derive(Debug)]
pub struct RunExecutionRoute {
    pub runtime_profile_id: String,
    pub provider_id: String,
    pub model_id: Option<String>,
    pub auth_profile_id: Option<String>,
    pub harness: RunHarnessKind,
}

/// The plain content of a route.
pub open spec fn spec_route_view(r: RunExecutionRoute) -> (
    Seq<char>,
    Seq<char>,
    Option<Seq<char>>,
    Option<Seq<char>>,
    RunHarnessKind,
) {
    (
        r.runtime_profile_id@,
        r.provider_id@,
        match r.model_id {
            Some(m) => Some(m@),
            None => None,
        },
        match r.auth_profile_id {
            Some(a) => Some(a@),
            None => None,
        },
        r.harness,
    )
}

fn opt_text_eq(a: &Option<String>, b: &Option<String>) -> (eq: bool)
    ensures
        eq == (match (*a, *b) {
            (Some(x), Some(y)) => x@ == y@,
            (None, None) => true,
            _ => false,
        }),
{
    match (a, b) {
        (Some(x), Some(y)) => *x == *y,
        (None, None) => true,
        _ => false,
    }
}

/// A failed run continues only on a route other than its own: the
/// replacement is refused when it equals the parent's route in every part.
pub fn check_replacement_route(parent: &RunExecutionRoute, replacement: &RunExecutionRoute) -> (r: Result<
    (),
    RunExecutionError,
>)
    ensures
        spec_route_view(*parent) == spec_route_view(*replacement) ==> r == Err::<(), RunExecutionError>(
            RunExecutionError::ReplacementRouteMustDiffer,
        ),
        spec_route_view(*parent) != spec_route_view(*replacement) ==> r is Ok,
{
    if parent.runtime_profile_id == replacement.runtime_profile_id && parent.provider_id == replacement.provider_id
        && opt_text_eq(&parent.model_id, &replacement.model_id) && opt_text_eq(
        &parent.auth_profile_id,
        &replacement.auth_profile_id,
    ) && parent.harness == replacement.harness {
        Err(RunExecutionError::ReplacementRouteMustDiffer)
    } else {
        Ok(())
    }
}

} // verus!

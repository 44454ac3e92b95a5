//! The decisions that move a run between statuses: starting, approving,
//! expiring approvals, cancelling, resuming and promoting queued runs.

use vstd::prelude::*;

use crate::active_execution::ActiveExecutionOwner;
use crate::errors::{NotResumableReason, RunExecutionError};
use crate::workspace::{spec_worktree_outcome, FinishedWorkspaceRun, WorkspaceRunRegistry};
use crate::execution_policy::PolicyDecision;
use crate::budget::{budget_exceeded_event, spec_budget_exceeded_event, BudgetExceeded, BudgetExceededEvent, BudgetProjection};
use crate::run::{recipe_id_for_run, RunHarnessKind, RunId, RunRecord, RunSource, RunStatus, SessionId, spec_recipe_id};
use crate::scheduler::{
    spec_finish_result, spec_schedule_outcome, spec_schedule_result, RunScheduleDisposition, RunScheduler,
    RunSchedulerError, RunSchedulingPolicy,
};
use crate::text::{spec_trim, trimmed};

verus! {

/// A user's or the daemon's answer to an approval request.
#[derive(Debug, Clone, Copy, PartialEq, Eq, Structural)]
pub enum ApprovalDecision {
    Approved,
    Rejected,
}

/// Why an approval was resolved.
#[derive(Debug, Clone, Copy, PartialEq, Eq, Structural)]
pub enum ApprovalResolutionReason {
    User,
    Expired,
    Cancelled,
    BudgetExceeded,
}

/// The identity of a fresh approval request: its id and its validity window.
#[derive(Debug, Clone, Copy, PartialEq, Eq, Structural)]
pub struct ApprovalSeed {
    pub approval_id: u64,
    pub requested_at_ms: u64,
    pub expires_at_ms: u64,
}

/// An event that a transition records.
#[derive(Debug)]
pub enum TransitionEvent {
    RunActive { run_id: RunId, status: RunStatus, recipe_id: Option<String> },
    RunTerminal { run_id: RunId, status: RunStatus, reason: String, recipe_id: Option<String> },
    ApprovalRequested { approval_id: u64, run_id: RunId, requested_at_ms: u64, expires_at_ms: u64, reason: String },
}

/// The plain content of a transition event.
pub enum TransitionEventView {
    RunActive { run_id: RunId, status: RunStatus, recipe_id: Option<Seq<char>> },
    RunTerminal { run_id: RunId, status: RunStatus, reason: Seq<char>, recipe_id: Option<Seq<char>> },
    ApprovalRequested { approval_id: u64, run_id: RunId, requested_at_ms: u64, expires_at_ms: u64, reason: Seq<char> },
}

/// The view of an optional text.
pub open spec fn spec_opt_view(s: Option<String>) -> Option<Seq<char>> {
    match s {
        Some(t) => Some(t@),
        None => None,
    }
}

impl TransitionEvent {
    /// The plain content of the event.
    pub open spec fn view_event(&self) -> TransitionEventView {
        match self {
            TransitionEvent::RunActive { run_id, status, recipe_id } => TransitionEventView::RunActive {
                run_id: *run_id,
                status: *status,
                recipe_id: spec_opt_view(*recipe_id),
            },
            TransitionEvent::RunTerminal { run_id, status, reason, recipe_id } => TransitionEventView::RunTerminal {
                run_id: *run_id,
                status: *status,
                reason: reason@,
                recipe_id: spec_opt_view(*recipe_id),
            },
            TransitionEvent::ApprovalRequested { approval_id, run_id, requested_at_ms, expires_at_ms, reason } => TransitionEventView::ApprovalRequested {
                approval_id: *approval_id,
                run_id: *run_id,
                requested_at_ms: *requested_at_ms,
                expires_at_ms: *expires_at_ms,
                reason: reason@,
            },
        }
    }
}

/// The plain contents of a list of events.
pub open spec fn spec_event_views(v: Seq<TransitionEvent>) -> Seq<TransitionEventView> {
    v.map_values(|e: TransitionEvent| e.view_event())
}

/// The status a run starts in under the policy decision for executing it.
pub open spec fn spec_start_status(decision: PolicyDecision) -> RunStatus {
    match decision {
        PolicyDecision::Allow => RunStatus::Running,
        PolicyDecision::Deny { .. } => RunStatus::Failed,
        PolicyDecision::RequireApproval { .. } => RunStatus::WaitingForApproval,
    }
}

/// The events of starting a run: allowed runs become active; denied runs
/// end with the policy's reason; runs that need approval wait and record an
/// approval request with the policy's reason.
pub open spec fn spec_start_events(
    run_id: RunId,
    decision: PolicyDecision,
    recipe_id: Option<Seq<char>>,
    seed: ApprovalSeed,
) -> Seq<TransitionEventView> {
    match decision {
        PolicyDecision::Allow => seq![TransitionEventView::RunActive { run_id, status: RunStatus::Running, recipe_id }],
        PolicyDecision::Deny { reason } => seq![
            TransitionEventView::RunTerminal { run_id, status: RunStatus::Failed, reason: reason@, recipe_id },
        ],
        PolicyDecision::RequireApproval { reason } => seq![
            TransitionEventView::RunActive { run_id, status: RunStatus::WaitingForApproval, recipe_id },
            TransitionEventView::ApprovalRequested {
                approval_id: seed.approval_id,
                run_id,
                requested_at_ms: seed.requested_at_ms,
                expires_at_ms: seed.expires_at_ms,
                reason: reason@,
            },
        ],
    }
}

/// The status and events of starting a run under a policy decision.
pub fn build_start_transition(
    run_id: RunId,
    decision: PolicyDecision,
    recipe_id: Option<String>,
    seed: ApprovalSeed,
) -> (res: (RunStatus, Vec<TransitionEvent>))
    ensures
        res.0 == spec_start_status(decision),
        spec_event_views(res.1@) == spec_start_events(run_id, decision, spec_opt_view(recipe_id), seed),
{
    let ghost d = decision;
    let ghost r = spec_opt_view(recipe_id);
    match decision {
        PolicyDecision::Allow => {
            let mut events: Vec<TransitionEvent> = Vec::new();
            events.push(TransitionEvent::RunActive { run_id, status: RunStatus::Running, recipe_id });
            assert(spec_event_views(events@) =~= spec_start_events(run_id, d, r, seed));
            (RunStatus::Running, events)
        },
        PolicyDecision::Deny { reason } => {
            let mut events: Vec<TransitionEvent> = Vec::new();
            events.push(TransitionEvent::RunTerminal { run_id, status: RunStatus::Failed, reason, recipe_id });
            assert(spec_event_views(events@) =~= spec_start_events(run_id, d, r, seed));
            (RunStatus::Failed, events)
        },
        PolicyDecision::RequireApproval { reason } => {
            let mut events: Vec<TransitionEvent> = Vec::new();
            events.push(TransitionEvent::RunActive { run_id, status: RunStatus::WaitingForApproval, recipe_id });
            events.push(
                TransitionEvent::ApprovalRequested {
                    approval_id: seed.approval_id,
                    run_id,
                    requested_at_ms: seed.requested_at_ms,
                    expires_at_ms: seed.expires_at_ms,
                    reason,
                },
            );
            assert(spec_event_views(events@) =~= spec_start_events(run_id, d, r, seed));
            (RunStatus::WaitingForApproval, events)
        },
    }
}

/// The status and event of a run that waits in the queue.
pub fn build_queue_transition(run_id: RunId, recipe_id: Option<String>) -> (res: (RunStatus, Vec<TransitionEvent>))
    ensures
        res.0 == RunStatus::Queued,
        spec_event_views(res.1@) == seq![
            TransitionEventView::RunActive { run_id, status: RunStatus::Queued, recipe_id: spec_opt_view(recipe_id) },
        ],
{
    let ghost r = spec_opt_view(recipe_id);
    let mut events: Vec<TransitionEvent> = Vec::new();
    events.push(TransitionEvent::RunActive { run_id, status: RunStatus::Queued, recipe_id });
    assert(spec_event_views(events@) =~= seq![
            TransitionEventView::RunActive { run_id, status: RunStatus::Queued, recipe_id: r },
        ]);
    (RunStatus::Queued, events)
}

/// The error a scheduler refusal maps to.
pub fn scheduler_error(e: RunSchedulerError) -> (r: RunExecutionError)
    ensures
        r == (match e {
            RunSchedulerError::QueueFull(sid) => RunExecutionError::RunQueueFull(sid),
        }),
{
    match e {
        RunSchedulerError::QueueFull(sid) => RunExecutionError::RunQueueFull(sid),
    }
}

/// The first transition of a new run, given the scheduler's answer: a run
/// that may start now starts under the policy decision, a run that must wait
/// is queued, and a full queue refuses it.
pub open spec fn spec_admission(
    outcome: Result<RunScheduleDisposition, RunSchedulerError>,
    run_id: RunId,
    decision: PolicyDecision,
    recipe_id: Option<Seq<char>>,
    seed: ApprovalSeed,
    res: Result<(RunStatus, Vec<TransitionEvent>), RunExecutionError>,
) -> bool {
    match outcome {
        Err(RunSchedulerError::QueueFull(sid)) => res == Err::<(RunStatus, Vec<TransitionEvent>), RunExecutionError>(
            RunExecutionError::RunQueueFull(sid),
        ),
        Ok(RunScheduleDisposition::StartNow) => res matches Ok((status, events)) && status == spec_start_status(
            decision,
        ) && spec_event_views(events@) == spec_start_events(run_id, decision, recipe_id, seed),
        Ok(RunScheduleDisposition::Queued { .. }) => res matches Ok((status, events)) && status == RunStatus::Queued
            && spec_event_views(events@) == seq![
            TransitionEventView::RunActive { run_id, status: RunStatus::Queued, recipe_id },
        ],
    }
}

/// Admit a new run to its session's scheduler under `policy` and build its
/// first transition (see [`spec_admission`]).
pub fn admit_new_run(
    scheduler: &mut RunScheduler,
    session_id: SessionId,
    run_id: RunId,
    policy: RunSchedulingPolicy,
    decision: PolicyDecision,
    recipe_id: Option<String>,
    seed: ApprovalSeed,
) -> (res: Result<(RunStatus, Vec<TransitionEvent>), RunExecutionError>)
    ensures
        spec_schedule_result(
            *old(scheduler),
            *final(scheduler),
            session_id,
            run_id,
            policy,
            spec_schedule_outcome(*old(scheduler), session_id, policy),
        ),
        spec_admission(
            spec_schedule_outcome(*old(scheduler), session_id, policy),
            run_id,
            decision,
            spec_opt_view(recipe_id),
            seed,
            res,
        ),
{
    match scheduler.schedule_start_with_policy(session_id, run_id, policy) {
        Err(e) => Err(scheduler_error(e)),
        Ok(RunScheduleDisposition::StartNow) => Ok(build_start_transition(run_id, decision, recipe_id, seed)),
        Ok(RunScheduleDisposition::Queued { .. }) => Ok(build_queue_transition(run_id, recipe_id)),
    }
}

/// What ending a scheduled run gives back: the workspace resources it held
/// (see [`WorkspaceRunRegistry::finish`]) and the waiting run that took its
/// session's slot, if any.
#[derive(Debug)]
pub struct FinishedScheduledRun {
    pub workspace: Option<FinishedWorkspaceRun>,
    pub promoted: Option<RunId>,
}

/// End a scheduled run with `status`, or give back a run whose start failed
/// after it was admitted: its live execution slot is retired, its workspace
/// resources are taken back and marked for `status`, and its scheduler slot
/// or queue place is released, the next waiting run taking a freed slot.
pub fn finish_scheduled_run(
    owner: &mut ActiveExecutionOwner,
    workspace_runs: &mut WorkspaceRunRegistry,
    scheduler: &mut RunScheduler,
    session_id: SessionId,
    run_id: RunId,
    status: RunStatus,
) -> (f: FinishedScheduledRun)
    ensures
        final(owner).entries() == old(owner).entries().remove(run_id),
        final(owner).last_generation() == old(owner).last_generation(),
        old(owner).wf() ==> final(owner).wf(),
        final(workspace_runs)@ == old(workspace_runs)@.remove(run_id),
        !old(workspace_runs)@.contains_key(run_id) ==> f.workspace is None,
        old(workspace_runs)@.contains_key(run_id) ==> f.workspace == Some(
            FinishedWorkspaceRun {
                release_claim: old(workspace_runs)@[run_id].claim,
                worktree: match old(workspace_runs)@[run_id].worktree {
                    Some(w) => Some((w, spec_worktree_outcome(status))),
                    None => None,
                },
            },
        ),
        spec_finish_result(*old(scheduler), *final(scheduler), session_id, run_id, f.promoted),
{
    owner.release_run(run_id);
    let workspace = workspace_runs.finish(run_id, status);
    let promoted = scheduler.finish_run(session_id, run_id);
    FinishedScheduledRun { workspace, promoted }
}

/// What the store says of a requested approval.
#[derive(Debug, Clone, Copy, PartialEq, Eq, Structural)]
pub enum ApprovalLookup {
    Pending { run_id: RunId, expires_at_ms: u64, tool_call_id: Option<u64> },
    Resolved,
    NotFound,
}

/// How a user's approval decision is carried out.
#[derive(Debug, Clone, Copy, PartialEq, Eq, Structural)]
pub enum ApprovalDecisionPlan {
    /// The request has expired: resolve it as expired, then report it as
    /// already resolved.
    Expire,
    /// The run is live: record the resolution and hand it to the live execution.
    ResolveLive,
    /// The run waits for this approval: record the resolution and move the
    /// run to `status`.
    Transition { status: RunStatus },
}

/// The plan for a user's decision on approval `approval_id` of a session.
pub open spec fn spec_plan_approval_decision(
    approval_id: u64,
    session_id: SessionId,
    lookup: ApprovalLookup,
    expired: bool,
    run_status: Option<RunStatus>,
    session_exists: bool,
    live_owned: bool,
    decision: ApprovalDecision,
) -> Result<ApprovalDecisionPlan, RunExecutionError> {
    match lookup {
        ApprovalLookup::Resolved => Err(RunExecutionError::ApprovalAlreadyResolved(approval_id)),
        ApprovalLookup::NotFound => Err(RunExecutionError::ApprovalNotFound(approval_id)),
        ApprovalLookup::Pending { run_id, .. } => if expired {
            Ok(ApprovalDecisionPlan::Expire)
        } else {
            match run_status {
                None => Err(RunExecutionError::RunNotFound(run_id)),
                Some(status) => if !session_exists {
                    Err(RunExecutionError::SessionNotFound(session_id))
                } else if status == RunStatus::Running && live_owned {
                    Ok(ApprovalDecisionPlan::ResolveLive)
                } else if status != RunStatus::WaitingForApproval {
                    Err(RunExecutionError::RunNotWaitingForApproval(run_id))
                } else {
                    Ok(ApprovalDecisionPlan::Transition {
                        status: match decision {
                            ApprovalDecision::Approved => RunStatus::Running,
                            ApprovalDecision::Rejected => RunStatus::Failed,
                        },
                    })
                },
            }
        },
    }
}

/// Decide how a user's approval decision is carried out (see
/// [`spec_plan_approval_decision`]); `run_status` is the status of the
/// approval's run, when it exists.
pub fn plan_approval_decision(
    approval_id: u64,
    session_id: SessionId,
    lookup: ApprovalLookup,
    expired: bool,
    run_status: Option<RunStatus>,
    session_exists: bool,
    live_owned: bool,
    decision: ApprovalDecision,
) -> (res: Result<ApprovalDecisionPlan, RunExecutionError>)
    ensures
        res == spec_plan_approval_decision(approval_id, session_id, lookup, expired, run_status, session_exists, live_owned, decision),
{
    let run_id = match lookup {
        ApprovalLookup::Resolved => {
            return Err(RunExecutionError::ApprovalAlreadyResolved(approval_id));
        },
        ApprovalLookup::NotFound => {
            return Err(RunExecutionError::ApprovalNotFound(approval_id));
        },
        ApprovalLookup::Pending { run_id, .. } => run_id,
    };
    if expired {
        return Ok(ApprovalDecisionPlan::Expire);
    }
    let status = match run_status {
        None => {
            return Err(RunExecutionError::RunNotFound(run_id));
        },
        Some(s) => s,
    };
    if !session_exists {
        return Err(RunExecutionError::SessionNotFound(session_id));
    }
    if status == RunStatus::Running && live_owned {
        return Ok(ApprovalDecisionPlan::ResolveLive);
    }
    if status != RunStatus::WaitingForApproval {
        return Err(RunExecutionError::RunNotWaitingForApproval(run_id));
    }
    Ok(
        ApprovalDecisionPlan::Transition {
            status: match decision {
                ApprovalDecision::Approved => RunStatus::Running,
                ApprovalDecision::Rejected => RunStatus::Failed,
            },
        },
    )
}

/// How an expired approval is resolved.
#[derive(Debug, Clone, Copy, PartialEq, Eq, Structural)]
pub struct ExpirationPlan {
    /// The live execution must be told that the approval was rejected.
    pub resolve_live: bool,
    /// The waiting run fails with "Approval expired".
    pub fail_run: bool,
}

/// The plan for expiring an approval of run `run_id` in a session.
pub open spec fn spec_plan_expiration(
    run_id: RunId,
    session_id: SessionId,
    run: Option<(SessionId, RunStatus)>,
    live_owned: bool,
) -> Result<ExpirationPlan, RunExecutionError> {
    match run {
        None => Err(RunExecutionError::RunNotFound(run_id)),
        Some((owner, status)) => if owner != session_id {
            Err(RunExecutionError::RunSessionMismatch(run_id))
        } else {
            Ok(ExpirationPlan {
                resolve_live: status == RunStatus::Running && live_owned,
                fail_run: status == RunStatus::WaitingForApproval,
            })
        },
    }
}

/// Decide how an expired approval is resolved (see [`spec_plan_expiration`]);
/// `run` is the session and status of the approval's run, when it exists.
pub fn plan_expiration(
    run_id: RunId,
    session_id: SessionId,
    run: Option<(SessionId, RunStatus)>,
    live_owned: bool,
) -> (res: Result<ExpirationPlan, RunExecutionError>)
    ensures
        res == spec_plan_expiration(run_id, session_id, run, live_owned),
{
    match run {
        None => Err(RunExecutionError::RunNotFound(run_id)),
        Some((owner, status)) => if owner != session_id {
            Err(RunExecutionError::RunSessionMismatch(run_id))
        } else {
            Ok(
                ExpirationPlan {
                    resolve_live: status == RunStatus::Running && live_owned,
                    fail_run: status == RunStatus::WaitingForApproval,
                },
            )
        },
    }
}

/// What a user's decision on an expired request comes to: the expiry that
/// is carried out first, and the refusal the decision then answers with.
#[derive(Debug)]
pub struct ExpiredDecision {
    pub expiration: ExpirationPlan,
    pub answer: RunExecutionError,
}

/// A user's decision on an expired request (the plan
/// [`ApprovalDecisionPlan::Expire`]): the request is first expired as
/// [`spec_plan_expiration`] says, and the decision then fails with
/// `ApprovalAlreadyResolved`; when the expiry itself is refused, the decision
/// fails with that refusal instead.
pub fn plan_expired_decision(
    approval_id: u64,
    run_id: RunId,
    session_id: SessionId,
    run: Option<(SessionId, RunStatus)>,
    live_owned: bool,
) -> (res: Result<ExpiredDecision, RunExecutionError>)
    ensures
        match spec_plan_expiration(run_id, session_id, run, live_owned) {
            Err(e) => res == Err::<ExpiredDecision, RunExecutionError>(e),
            Ok(p) => res == Ok::<ExpiredDecision, RunExecutionError>(
                ExpiredDecision { expiration: p, answer: RunExecutionError::ApprovalAlreadyResolved(approval_id) },
            ),
        },
{
    match plan_expiration(run_id, session_id, run, live_owned) {
        Err(e) => Err(e),
        Ok(p) => Ok(ExpiredDecision { expiration: p, answer: RunExecutionError::ApprovalAlreadyResolved(approval_id) }),
    }
}

/// How a cancellation is carried out.
#[derive(Debug, Clone, Copy, PartialEq, Eq, Structural)]
pub struct CancelPlan {
    /// The live execution must be cancelled first.
    pub cancel_live: bool,
    /// The run's pending approvals are rejected as cancelled.
    pub reject_pending_approvals: bool,
}

/// The plan for cancelling run `run_id`: only an open run can be cancelled,
/// and a running run only while a live execution owns it.
pub open spec fn spec_plan_cancel(
    run_id: RunId,
    session_id: SessionId,
    run: Option<(SessionId, RunStatus)>,
    live_owned: bool,
    session_exists: bool,
) -> Result<CancelPlan, RunExecutionError> {
    match run {
        None => Err(RunExecutionError::RunNotFound(run_id)),
        Some((owner, status)) => if owner != session_id {
            Err(RunExecutionError::RunSessionMismatch(run_id))
        } else if !status.spec_is_open() {
            Err(RunExecutionError::RunNotCancellable(run_id))
        } else if status == RunStatus::Running && !live_owned {
            Err(RunExecutionError::RunNotCancellable(run_id))
        } else if !session_exists {
            Err(RunExecutionError::SessionNotFound(session_id))
        } else {
            Ok(CancelPlan {
                cancel_live: status == RunStatus::Running,
                reject_pending_approvals: status == RunStatus::Running || status == RunStatus::WaitingForApproval,
            })
        },
    }
}

/// Decide how a cancellation is carried out (see [`spec_plan_cancel`]).
pub fn plan_cancel(
    run_id: RunId,
    session_id: SessionId,
    run: Option<(SessionId, RunStatus)>,
    live_owned: bool,
    session_exists: bool,
) -> (res: Result<CancelPlan, RunExecutionError>)
    ensures
        res == spec_plan_cancel(run_id, session_id, run, live_owned, session_exists),
{
    let (owner, status) = match run {
        None => {
            return Err(RunExecutionError::RunNotFound(run_id));
        },
        Some(r) => r,
    };
    if owner != session_id {
        return Err(RunExecutionError::RunSessionMismatch(run_id));
    }
    if !status.is_open() {
        return Err(RunExecutionError::RunNotCancellable(run_id));
    }
    if status == RunStatus::Running && !live_owned {
        return Err(RunExecutionError::RunNotCancellable(run_id));
    }
    if !session_exists {
        return Err(RunExecutionError::SessionNotFound(session_id));
    }
    Ok(
        CancelPlan {
            cancel_live: status == RunStatus::Running,
            reject_pending_approvals: status == RunStatus::Running || status == RunStatus::WaitingForApproval,
        },
    )
}

/// The most runs one cancellation may cascade through.
pub const MAX_NATIVE_CHILD_CANCEL_CASCADE_RUNS: usize = 64;

/// Record a visit of the cancel cascade: a run visited twice is a loop, and
/// the cascade may visit at most the maximum number of runs.
pub fn visit_cancel_cascade(visited: &mut Vec<RunId>, run_id: RunId) -> (res: Result<(), RunExecutionError>)
    ensures
        old(visited)@.contains(run_id) ==> {
            &&& final(visited)@ == old(visited)@
            &&& res == Err::<(), RunExecutionError>(RunExecutionError::RunNotCancellable(run_id))
        },
        !old(visited)@.contains(run_id) ==> {
            &&& final(visited)@ == old(visited)@.push(run_id)
            &&& (final(visited)@.len() > MAX_NATIVE_CHILD_CANCEL_CASCADE_RUNS ==> (res matches Err(
                RunExecutionError::ProviderExecutionFailed(m),
            ) && m@ == spec_cascade_exceeded_message()))
            &&& (final(visited)@.len() <= MAX_NATIVE_CHILD_CANCEL_CASCADE_RUNS ==> res is Ok)
        },
{
    if crate::budget::vec_contains(visited, run_id) {
        return Err(RunExecutionError::RunNotCancellable(run_id));
    }
    visited.push(run_id);
    if visited.len() > MAX_NATIVE_CHILD_CANCEL_CASCADE_RUNS {
        return Err(RunExecutionError::ProviderExecutionFailed(cascade_exceeded_message()));
    }
    Ok(())
}

/// The failure reported when a cancel cascade reaches more runs than allowed.
pub open spec fn spec_cascade_exceeded_message() -> Seq<char> {
    "native child cancel cascade exceeded 64 runs"@
}

fn cascade_exceeded_message() -> (m: String)
    ensures
        m@ == spec_cascade_exceeded_message(),
{
    String::from_str("native child cancel cascade exceeded 64 runs")
}

/// The detail recorded for a cancellation: the caller's reason, trimmed,
/// unless it is missing or blank.
pub open spec fn spec_cancel_detail(reason: Option<Seq<char>>) -> Seq<char> {
    match reason {
        Some(r) => if spec_trim(r).len() > 0 {
            spec_trim(r)
        } else {
            "Run cancelled"@
        },
        None => "Run cancelled"@,
    }
}

/// The detail recorded for a cancellation (see [`spec_cancel_detail`]).
pub fn cancel_detail(reason: Option<&str>) -> (d: String)
    ensures
        d@ == spec_cancel_detail(match reason {
            Some(r) => Some(r@),
            None => None,
        }),
{
    match reason {
        Some(r) => {
            let t = trimmed(r);
            if t.as_str().unicode_len() > 0 {
                return t;
            }
        },
        None => {},
    }
    String::from_str("Run cancelled")
}

/// Whether `run` is a cancellable native child of `parent_run_id` that the
/// cascade has not visited.
pub open spec fn spec_cancellable_child(
    run: RunRecord,
    session_id: SessionId,
    parent_run_id: RunId,
    visited: Seq<RunId>,
) -> bool {
    &&& run.session_id == session_id
    &&& run.id != parent_run_id
    &&& !visited.contains(run.id)
    &&& run.status.spec_is_open()
    &&& run.source matches RunSource::NativeSubagent { parent_run_id: p, .. } && p == parent_run_id
}

/// Whether `s` is in ascending order.
pub open spec fn spec_sorted(s: Seq<RunId>) -> bool {
    forall|i: int, j: int| 0 <= i <= j < s.len() ==> s[i] <= s[j]
}

/// The ids of the cancellable children, in the order of `runs`.
pub open spec fn spec_child_ids(
    runs: Seq<RunRecord>,
    session_id: SessionId,
    parent_run_id: RunId,
    visited: Seq<RunId>,
) -> Seq<RunId>
    decreases runs.len(),
{
    if runs.len() == 0 {
        Seq::empty()
    } else {
        let prev = spec_child_ids(runs.drop_last(), session_id, parent_run_id, visited);
        if spec_cancellable_child(runs.last(), session_id, parent_run_id, visited) {
            prev.push(runs.last().id)
        } else {
            prev
        }
    }
}

/// `s` with `x` placed after every id not greater than it.
pub open spec fn spec_insert_id(s: Seq<RunId>, x: RunId) -> Seq<RunId>
    decreases s.len(),
{
    if s.len() == 0 {
        seq![x]
    } else if s.last() <= x {
        s.push(x)
    } else {
        spec_insert_id(s.drop_last(), x).push(s.last())
    }
}

/// The ids in ascending order (an insertion sort).
pub open spec fn spec_sort_ids(s: Seq<RunId>) -> Seq<RunId>
    decreases s.len(),
{
    if s.len() == 0 {
        Seq::empty()
    } else {
        spec_insert_id(spec_sort_ids(s.drop_last()), s.last())
    }
}

proof fn lemma_insert_id_at(s: Seq<RunId>, x: RunId, j: int)
    requires
        0 <= j <= s.len(),
        forall|k: int| j <= k < s.len() ==> #[trigger] s[k] > x,
        j == 0 || s[j - 1] <= x,
    ensures
        spec_insert_id(s, x) == s.take(j).push(x) + s.skip(j),
    decreases s.len(),
{
    if s.len() == 0 {
        assert(s.take(j).push(x) + s.skip(j) =~= seq![x]);
    } else if s.last() <= x {
        if j < s.len() {
            assert(s[s.len() - 1] > x);
        }
        assert(s.take(j).push(x) + s.skip(j) =~= s.push(x));
    } else {
        let dl = s.drop_last();
        assert(s[s.len() - 1] > x);
        lemma_insert_id_at(dl, x, j);
        assert((dl.take(j).push(x) + dl.skip(j)).push(s.last()) =~= s.take(j).push(x) + s.skip(j));
    }
}

fn insert_sorted(v: &mut Vec<RunId>, x: RunId)
    requires
        spec_sorted(old(v)@),
    ensures
        final(v)@ == spec_insert_id(old(v)@, x),
        spec_sorted(final(v)@),
        final(v)@.to_multiset() == old(v)@.to_multiset().insert(x),
{
    broadcast use vstd::seq_lib::group_seq_properties;
    broadcast use vstd::multiset::group_multiset_axioms;
    let mut i: usize = 0;
    while i < v.len() && v[i] <= x
        invariant
            0 <= i <= v.len(),
            v@ == old(v)@,
            spec_sorted(v@),
            forall|k: int| 0 <= k < i ==> v@[k] <= x,
        decreases v.len() - i,
    {
        i = i + 1;
    }
    proof {
        assert forall|k: int| i <= k < v@.len() implies #[trigger] v@[k] > x by {
            assert(v@[i as int] > x);
            assert(v@[i as int] <= v@[k]);
        }
        lemma_insert_id_at(v@, x, i as int);
    }
    let ghost before = v@;
    v.insert(i, x);
    assert(v@ == before.insert(i as int, x));
    proof {
        before.insert_ensures(i as int, x);
        assert(before.insert(i as int, x) =~= before.take(i as int).push(x) + before.skip(i as int));
        vstd::seq_lib::lemma_multiset_commutative(before.take(i as int).push(x), before.skip(i as int));
        vstd::seq_lib::lemma_multiset_commutative(before.take(i as int), before.skip(i as int));
        assert(before =~= before.take(i as int) + before.skip(i as int));
    }
}

/// The ids of the cancellable native children of a run, ascending.
pub fn cancellable_native_child_run_ids(
    runs: &Vec<RunRecord>,
    session_id: SessionId,
    parent_run_id: RunId,
    visited: &Vec<RunId>,
) -> (ids: Vec<RunId>)
    ensures
        ids@ == spec_sort_ids(spec_child_ids(runs@, session_id, parent_run_id, visited@)),
        spec_sorted(ids@),
        ids@.to_multiset() == spec_child_ids(runs@, session_id, parent_run_id, visited@).to_multiset(),
{
    broadcast use vstd::seq_lib::group_seq_properties;
    let mut ids: Vec<RunId> = Vec::new();
    let mut i: usize = 0;
    while i < runs.len()
        invariant
            0 <= i <= runs.len(),
            spec_sorted(ids@),
            ids@ == spec_sort_ids(spec_child_ids(runs@.take(i as int), session_id, parent_run_id, visited@)),
            ids@.to_multiset() == spec_child_ids(runs@.take(i as int), session_id, parent_run_id, visited@).to_multiset(),
        decreases runs.len() - i,
    {
        assert(runs@.take((i + 1) as int).drop_last() == runs@.take(i as int));
        let r = &runs[i];
        let child = match &r.source {
            RunSource::NativeSubagent { parent_run_id: p, .. } => *p == parent_run_id,
            _ => false,
        };
        let unvisited = !crate::budget::vec_contains(visited, r.id);
        let open = r.status.is_open();
        assert(child <==> (r.source matches RunSource::NativeSubagent { parent_run_id: p, .. } && p == parent_run_id));
        if r.session_id == session_id && r.id != parent_run_id && unvisited && open && child {
            let ghost prev = spec_child_ids(runs@.take(i as int), session_id, parent_run_id, visited@);
            insert_sorted(&mut ids, r.id);
            assert(spec_cancellable_child(runs@[i as int], session_id, parent_run_id, visited@));
            assert(prev.push(r.id).drop_last() == prev);
            assert(prev.push(r.id).last() == r.id);
            assert(spec_child_ids(runs@.take((i + 1) as int), session_id, parent_run_id, visited@) == prev.push(r.id));
        } else {
            assert(!spec_cancellable_child(runs@[i as int], session_id, parent_run_id, visited@));
        }
        proof {
            broadcast use vstd::seq_lib::group_to_multiset_ensures;
        }
        i = i + 1;
    }
    assert(runs@.take(runs.len() as int) == runs@);
    ids
}

/// Why a cancel cascade stops.
pub enum CascadeStop {
    /// The cascade reached this run a second time.
    Loop(RunId),
    /// The cascade reached more runs than allowed.
    Exceeded,
}

/// The cascade of a cancellation from `run_id`, given the runs visited so
/// far: the run is visited (a run visited twice stops the cascade as a loop,
/// and a visit beyond the maximum stops it as exceeded), then the cascade
/// goes on from each of its cancellable native children (see
/// [`spec_child_ids`]) in ascending order, each child's cascade before the
/// next child's. The result is the runs visited, in order. `fuel` counts the
/// nesting levels left; with the maximum to start from, the bound on visits
/// stops the cascade before the fuel runs out.
pub open spec fn spec_cascade(
    runs: Seq<RunRecord>,
    session_id: SessionId,
    run_id: RunId,
    visited: Seq<RunId>,
    fuel: nat,
) -> Result<Seq<RunId>, CascadeStop>
    decreases fuel, 0int,
{
    if visited.contains(run_id) {
        Err(CascadeStop::Loop(run_id))
    } else if visited.len() + 1 > MAX_NATIVE_CHILD_CANCEL_CASCADE_RUNS || fuel == 0 {
        Err(CascadeStop::Exceeded)
    } else {
        let next = visited.push(run_id);
        spec_cascade_children(
            runs,
            session_id,
            spec_sort_ids(spec_child_ids(runs, session_id, run_id, next)),
            next,
            (fuel - 1) as nat,
        )
    }
}

/// The cascades from `children`, one after another (see [`spec_cascade`]).
pub open spec fn spec_cascade_children(
    runs: Seq<RunRecord>,
    session_id: SessionId,
    children: Seq<RunId>,
    visited: Seq<RunId>,
    fuel: nat,
) -> Result<Seq<RunId>, CascadeStop>
    decreases fuel, children.len(),
{
    if children.len() == 0 {
        Ok(visited)
    } else {
        match spec_cascade(runs, session_id, children[0], visited, fuel) {
            Err(e) => Err(e),
            Ok(v) => spec_cascade_children(runs, session_id, children.drop_first(), v, fuel),
        }
    }
}

/// Whether `res` reports that the cascade stopped for `stop`: a loop as the
/// run not being cancellable, an exceeded bound as a provider failure.
pub open spec fn spec_reports_stop(stop: CascadeStop, res: Result<(), RunExecutionError>) -> bool {
    match stop {
        CascadeStop::Loop(id) => res == Err::<(), RunExecutionError>(RunExecutionError::RunNotCancellable(id)),
        CascadeStop::Exceeded => res matches Err(RunExecutionError::ProviderExecutionFailed(m)) && m@
            == spec_cascade_exceeded_message(),
    }
}

fn cascade_from(
    runs: &Vec<RunRecord>,
    session_id: SessionId,
    run_id: RunId,
    visited: &mut Vec<RunId>,
    fuel: usize,
) -> (res: Result<(), RunExecutionError>)
    ensures
        match spec_cascade(runs@, session_id, run_id, old(visited)@, fuel as nat) {
            Ok(v) => res is Ok && final(visited)@ == v,
            Err(e) => spec_reports_stop(e, res),
        },
    decreases fuel,
{
    if crate::budget::vec_contains(visited, run_id) {
        return Err(RunExecutionError::RunNotCancellable(run_id));
    }
    if visited.len() >= MAX_NATIVE_CHILD_CANCEL_CASCADE_RUNS || fuel == 0 {
        return Err(RunExecutionError::ProviderExecutionFailed(cascade_exceeded_message()));
    }
    visited.push(run_id);
    let ghost next = visited@;
    let children = cancellable_native_child_run_ids(runs, session_id, run_id, visited);
    let ghost total = spec_cascade_children(runs@, session_id, children@, next, (fuel - 1) as nat);
    assert(next == old(visited)@.push(run_id));
    assert(spec_cascade(runs@, session_id, run_id, old(visited)@, fuel as nat) == total);
    assert(children@.skip(0) =~= children@);
    let mut i: usize = 0;
    while i < children.len()
        invariant
            0 <= i <= children.len(),
            fuel > 0,
            total == spec_cascade(runs@, session_id, run_id, old(visited)@, fuel as nat),
            total == spec_cascade_children(runs@, session_id, children@, next, (fuel - 1) as nat),
            total == spec_cascade_children(runs@, session_id, children@.skip(i as int), visited@, (fuel - 1) as nat),
        decreases children.len() - i,
    {
        proof {
            let rest = children@.skip(i as int);
            assert(rest[0] == children@[i as int]);
            assert(rest.drop_first() =~= children@.skip((i + 1) as int));
        }
        let ghost before = visited@;
        let r = cascade_from(runs, session_id, children[i], visited, fuel - 1);
        match r {
            Err(e) => {
                proof {
                    let child_run = spec_cascade(runs@, session_id, children@[i as int], before, (fuel - 1) as nat);
                    assert(child_run is Err);
                    assert(total == child_run);
                }
                return Err(e);
            },
            Ok(()) => {},
        }
        i = i + 1;
    }
    assert(children@.skip(i as int) =~= Seq::<RunId>::empty());
    Ok(())
}

/// The runs a cancellation reaches, in the order they are cancelled (see
/// [`spec_cascade`], starting from no visited run and the maximum as fuel).
/// Each reached run is then cancelled as [`plan_cancel`] says.
pub fn plan_cancel_cascade(runs: &Vec<RunRecord>, session_id: SessionId, run_id: RunId) -> (r: Result<
    Vec<RunId>,
    RunExecutionError,
>)
    ensures
        match spec_cascade(runs@, session_id, run_id, Seq::empty(), MAX_NATIVE_CHILD_CANCEL_CASCADE_RUNS as nat) {
            Ok(v) => r matches Ok(order) && order@ == v,
            Err(e) => spec_reports_stop(
                e,
                match r {
                    Ok(_) => Ok(()),
                    Err(x) => Err(x),
                },
            ),
        },
{
    let mut visited: Vec<RunId> = Vec::new();
    match cascade_from(runs, session_id, run_id, &mut visited, MAX_NATIVE_CHILD_CANCEL_CASCADE_RUNS) {
        Ok(()) => Ok(visited),
        Err(e) => Err(e),
    }
}

/// Whether `run` is an open native subagent of `parent_run_id` in the session.
pub open spec fn spec_open_native_child(run: RunRecord, session_id: SessionId, parent_run_id: RunId) -> bool {
    &&& run.session_id == session_id
    &&& run.status.spec_is_open()
    &&& run.source matches RunSource::NativeSubagent { parent_run_id: p, .. } && p == parent_run_id
}

/// Whether some run with id `child` is an open native subagent of `parent`.
pub open spec fn spec_child_rel(runs: Seq<RunRecord>, session_id: SessionId, child: RunId, parent: RunId) -> bool {
    exists|m: int| 0 <= m < runs.len() && runs[m].id == child && #[trigger] spec_open_native_child(runs[m], session_id, parent)
}

/// Whether `child` is a child of a run at a position of `order` from `lo`
/// up to `hi`.
pub open spec fn spec_has_parent_in(
    runs: Seq<RunRecord>,
    session_id: SessionId,
    child: RunId,
    order: Seq<RunId>,
    lo: int,
    hi: int,
) -> bool {
    exists|i: int| lo <= i < hi && #[trigger] spec_child_rel(runs, session_id, child, order[i])
}

/// Whether the run at position `j` of `order` is a child of a run at an
/// earlier position, from `base` on.
pub open spec fn spec_parent_before(
    runs: Seq<RunRecord>,
    session_id: SessionId,
    order: Seq<RunId>,
    base: int,
    j: int,
) -> bool {
    exists|i: int| base <= i < j && #[trigger] spec_child_rel(runs, session_id, order[j], order[i])
}

/// Whether every run after position `base` of `order` is a child of an
/// earlier one.
pub open spec fn spec_reached(runs: Seq<RunRecord>, session_id: SessionId, order: Seq<RunId>, base: int) -> bool {
    forall|j: int| base < j < order.len() ==> #[trigger] spec_parent_before(runs, session_id, order, base, j)
}

proof fn lemma_insert_id_contains(s: Seq<RunId>, x: RunId, e: RunId)
    requires
        spec_insert_id(s, x).contains(e),
    ensures
        s.contains(e) || e == x,
    decreases s.len(),
{
    if s.len() == 0 {
        assert(seq![x][0] == x);
    } else if s.last() <= x {
        let k = choose|k: int| 0 <= k < s.push(x).len() && s.push(x)[k] == e;
        if k < s.len() {
            assert(s[k] == e);
        }
    } else {
        let dl = s.drop_last();
        let ins = spec_insert_id(dl, x);
        let k = choose|k: int| 0 <= k < ins.push(s.last()).len() && ins.push(s.last())[k] == e;
        if k < ins.len() {
            assert(ins[k] == e);
            lemma_insert_id_contains(dl, x, e);
            if dl.contains(e) {
                let m = choose|m: int| 0 <= m < dl.len() && dl[m] == e;
                assert(s[m] == e);
            }
        } else {
            assert(s[s.len() - 1] == e);
        }
    }
}

proof fn lemma_sort_ids_contains(s: Seq<RunId>, e: RunId)
    requires
        spec_sort_ids(s).contains(e),
    ensures
        s.contains(e),
    decreases s.len(),
{
    if s.len() > 0 {
        lemma_insert_id_contains(spec_sort_ids(s.drop_last()), s.last(), e);
        if spec_sort_ids(s.drop_last()).contains(e) {
            lemma_sort_ids_contains(s.drop_last(), e);
            let m = choose|m: int| 0 <= m < s.drop_last().len() && s.drop_last()[m] == e;
            assert(s[m] == e);
        } else {
            assert(s[s.len() - 1] == e);
        }
    }
}

proof fn lemma_child_ids_are_children(
    runs: Seq<RunRecord>,
    session_id: SessionId,
    parent_run_id: RunId,
    visited: Seq<RunId>,
    e: RunId,
)
    requires
        spec_child_ids(runs, session_id, parent_run_id, visited).contains(e),
    ensures
        spec_child_rel(runs, session_id, e, parent_run_id),
    decreases runs.len(),
{
    let prev = spec_child_ids(runs.drop_last(), session_id, parent_run_id, visited);
    if prev.contains(e) {
        lemma_child_ids_are_children(runs.drop_last(), session_id, parent_run_id, visited, e);
        let m = choose|m: int|
            0 <= m < runs.drop_last().len() && runs.drop_last()[m].id == e && #[trigger] spec_open_native_child(
                runs.drop_last()[m],
                session_id,
                parent_run_id,
            );
        assert(runs[m] == runs.drop_last()[m]);
        assert(spec_open_native_child(runs[m], session_id, parent_run_id));
    } else {
        let k = choose|k: int|
            0 <= k < spec_child_ids(runs, session_id, parent_run_id, visited).len() && spec_child_ids(
                runs,
                session_id,
                parent_run_id,
                visited,
            )[k] == e;
        assert(spec_cancellable_child(runs.last(), session_id, parent_run_id, visited));
        assert(runs.last().id == e);
        assert(spec_open_native_child(runs[runs.len() - 1], session_id, parent_run_id));
    }
}

proof fn lemma_reached_extends(
    runs: Seq<RunRecord>,
    session_id: SessionId,
    short: Seq<RunId>,
    long: Seq<RunId>,
    base: int,
    j: int,
)
    requires
        short.len() <= long.len(),
        long.take(short.len() as int) == short,
        0 <= base < j < short.len(),
        spec_parent_before(runs, session_id, short, base, j),
    ensures
        spec_parent_before(runs, session_id, long, base, j),
{
    let i = choose|i: int| base <= i < j && #[trigger] spec_child_rel(runs, session_id, short[j], short[i]);
    assert(long[i] == long.take(short.len() as int)[i]);
    assert(long[j] == long.take(short.len() as int)[j]);
    assert(spec_child_rel(runs, session_id, long[j], long[i]));
}

proof fn lemma_cascade_reached(
    runs: Seq<RunRecord>,
    session_id: SessionId,
    run_id: RunId,
    visited: Seq<RunId>,
    fuel: nat,
)
    requires
        spec_cascade(runs, session_id, run_id, visited, fuel) is Ok,
    ensures
        ({
            let order = spec_cascade(runs, session_id, run_id, visited, fuel)->Ok_0;
            &&& order.len() > visited.len()
            &&& order.take(visited.len() as int) == visited
            &&& order[visited.len() as int] == run_id
            &&& spec_reached(runs, session_id, order, visited.len() as int)
        }),
    decreases fuel, 0int,
{
    let next = visited.push(run_id);
    let children = spec_sort_ids(spec_child_ids(runs, session_id, run_id, next));
    let base = visited.len() as int;
    assert forall|k: int| 0 <= k < children.len() implies #[trigger] spec_has_parent_in(
        runs,
        session_id,
        children[k],
        next,
        base,
        next.len() as int,
    ) by {
        assert(children.contains(children[k]));
        lemma_sort_ids_contains(spec_child_ids(runs, session_id, run_id, next), children[k]);
        lemma_child_ids_are_children(runs, session_id, run_id, next, children[k]);
        assert(next[base] == run_id);
        assert(spec_child_rel(runs, session_id, children[k], next[base]));
    }
    lemma_cascade_children_reached(runs, session_id, children, next, (fuel - 1) as nat, base);
    let order = spec_cascade(runs, session_id, run_id, visited, fuel)->Ok_0;
    assert(order.take(next.len() as int) == next);
    assert(order[base] == order.take(next.len() as int)[base]);
    assert(order.take(base) =~= next.take(base));
    assert(next.take(base) =~= visited);
}

proof fn lemma_cascade_children_reached(
    runs: Seq<RunRecord>,
    session_id: SessionId,
    children: Seq<RunId>,
    visited: Seq<RunId>,
    fuel: nat,
    base: int,
)
    requires
        spec_cascade_children(runs, session_id, children, visited, fuel) is Ok,
        0 <= base < visited.len(),
        spec_reached(runs, session_id, visited, base),
        forall|k: int|
            0 <= k < children.len() ==> #[trigger] spec_has_parent_in(
                runs,
                session_id,
                children[k],
                visited,
                base,
                visited.len() as int,
            ),
    ensures
        ({
            let order = spec_cascade_children(runs, session_id, children, visited, fuel)->Ok_0;
            &&& order.len() >= visited.len()
            &&& order.take(visited.len() as int) == visited
            &&& spec_reached(runs, session_id, order, base)
        }),
    decreases fuel, children.len(),
{
    if children.len() == 0 {
        assert(visited.take(visited.len() as int) =~= visited);
    } else {
        lemma_cascade_reached(runs, session_id, children[0], visited, fuel);
        let v1 = spec_cascade(runs, session_id, children[0], visited, fuel)->Ok_0;
        assert forall|j: int| base < j < v1.len() implies #[trigger] spec_parent_before(
            runs,
            session_id,
            v1,
            base,
            j,
        ) by {
            if j < visited.len() {
                assert(spec_parent_before(runs, session_id, visited, base, j));
                lemma_reached_extends(runs, session_id, visited, v1, base, j);
            } else if j == visited.len() {
                assert(spec_has_parent_in(runs, session_id, children[0], visited, base, visited.len() as int));
                let i = choose|i: int|
                    base <= i < visited.len() && #[trigger] spec_child_rel(runs, session_id, children[0], visited[i]);
                assert(v1[i] == v1.take(visited.len() as int)[i]);
                assert(spec_child_rel(runs, session_id, v1[j], v1[i]));
            } else {
                assert(spec_parent_before(runs, session_id, v1, visited.len() as int, j));
                let i = choose|i: int|
                    visited.len() <= i < j && #[trigger] spec_child_rel(runs, session_id, v1[j], v1[i]);
                assert(spec_child_rel(runs, session_id, v1[j], v1[i]));
            }
        }
        let rest = children.drop_first();
        assert forall|k: int| 0 <= k < rest.len() implies #[trigger] spec_has_parent_in(
            runs,
            session_id,
            rest[k],
            v1,
            base,
            v1.len() as int,
        ) by {
            assert(rest[k] == children[k + 1]);
            assert(spec_has_parent_in(runs, session_id, children[k + 1], visited, base, visited.len() as int));
            let i = choose|i: int|
                base <= i < visited.len() && #[trigger] spec_child_rel(runs, session_id, children[k + 1], visited[i]);
            assert(v1[i] == v1.take(visited.len() as int)[i]);
            assert(spec_child_rel(runs, session_id, rest[k], v1[i]));
        }
        lemma_cascade_children_reached(runs, session_id, rest, v1, fuel, base);
        let order = spec_cascade_children(runs, session_id, children, visited, fuel)->Ok_0;
        assert(order.take(visited.len() as int) =~= order.take(v1.len() as int).take(visited.len() as int));
    }
}

/// A cancellation reaches only the run and its open native descendants: the
/// cascade starts with the run, and every other run it reaches is an open
/// native subagent, in the same session, of a run reached before it (see
/// [`spec_reached`]).
pub proof fn law_cascade_reaches_only_native_descendants(
    runs: Seq<RunRecord>,
    session_id: SessionId,
    run_id: RunId,
)
    requires
        spec_cascade(runs, session_id, run_id, Seq::empty(), MAX_NATIVE_CHILD_CANCEL_CASCADE_RUNS as nat) is Ok,
    ensures
        ({
            let order = spec_cascade(runs, session_id, run_id, Seq::empty(), MAX_NATIVE_CHILD_CANCEL_CASCADE_RUNS as nat)->Ok_0;
            &&& order.len() > 0
            &&& order[0] == run_id
            &&& spec_reached(runs, session_id, order, 0)
        }),
{
    lemma_cascade_reached(runs, session_id, run_id, Seq::empty(), MAX_NATIVE_CHILD_CANCEL_CASCADE_RUNS as nat);
}

/// Where a resumed run stands.
#[derive(Debug, Clone, Copy, PartialEq, Eq, Structural)]
pub enum ResumeRunState {
    Queued,
    Live,
}

/// Whether a run can be resumed, and how: only native runs whose profile
/// still runs natively; queued runs stay queued; running and waiting runs
/// are live only while a live execution owns them; finished runs cannot be
/// resumed.
pub open spec fn spec_resume_state(
    run_id: RunId,
    status: RunStatus,
    harness: RunHarnessKind,
    profile_is_native: bool,
    live_owned: bool,
) -> Result<ResumeRunState, RunExecutionError> {
    if harness != RunHarnessKind::Native || !profile_is_native {
        Err(RunExecutionError::RunNotNativeHarness(run_id))
    } else {
        match status {
            RunStatus::Queued => Ok(ResumeRunState::Queued),
            RunStatus::Running | RunStatus::WaitingForApproval => if live_owned {
                Ok(ResumeRunState::Live)
            } else {
                Err(RunExecutionError::RunNotResumable { run_id, reason: NotResumableReason::NoLiveNativeOwner })
            },
            _ => Err(RunExecutionError::RunNotResumable { run_id, reason: NotResumableReason::Terminal }),
        }
    }
}

/// Decide whether and how a run is resumed (see [`spec_resume_state`]).
pub fn resume_state(
    run_id: RunId,
    status: RunStatus,
    harness: RunHarnessKind,
    profile_is_native: bool,
    live_owned: bool,
) -> (res: Result<ResumeRunState, RunExecutionError>)
    ensures
        res == spec_resume_state(run_id, status, harness, profile_is_native, live_owned),
{
    if harness != RunHarnessKind::Native || !profile_is_native {
        return Err(RunExecutionError::RunNotNativeHarness(run_id));
    }
    match status {
        RunStatus::Queued => Ok(ResumeRunState::Queued),
        RunStatus::Running | RunStatus::WaitingForApproval => if live_owned {
            Ok(ResumeRunState::Live)
        } else {
            Err(RunExecutionError::RunNotResumable { run_id, reason: NotResumableReason::NoLiveNativeOwner })
        },
        _ => Err(RunExecutionError::RunNotResumable { run_id, reason: NotResumableReason::Terminal }),
    }
}

/// After a queued run was promoted with status `promoted`, release its slot
/// again when it failed to start, handing the slot to the next waiting run.
pub fn next_after_promotion(
    scheduler: &mut RunScheduler,
    session_id: SessionId,
    run_id: RunId,
    promoted: RunStatus,
) -> (next: Option<RunId>)
    ensures
        promoted == RunStatus::Failed ==> spec_finish_result(*old(scheduler), *final(scheduler), session_id, run_id, next),
        promoted != RunStatus::Failed ==> next is None && *final(scheduler) == *old(scheduler),
{
    if promoted == RunStatus::Failed {
        scheduler.finish_run(session_id, run_id)
    } else {
        None
    }
}

/// The record behind an optional reference, as a value.
pub open spec fn spec_run_of(run: Option<&RunRecord>) -> Option<RunRecord> {
    match run {
        Some(r) => Some(*r),
        None => None,
    }
}

/// The checks before a queued run is promoted: it must belong to the
/// session and still be queued.
pub fn check_queued_for_promotion(session_id: SessionId, run: &RunRecord) -> (r: Result<(), RunExecutionError>)
    ensures
        run.session_id != session_id ==> r == Err::<(), RunExecutionError>(RunExecutionError::RunSessionMismatch(run.id)),
        run.session_id == session_id && run.status != RunStatus::Queued ==> r == Err::<(), RunExecutionError>(
            RunExecutionError::RunNotQueued(run.id),
        ),
        run.session_id == session_id && run.status == RunStatus::Queued ==> r is Ok,
{
    if run.session_id != session_id {
        return Err(RunExecutionError::RunSessionMismatch(run.id));
    }
    if run.status != RunStatus::Queued {
        return Err(RunExecutionError::RunNotQueued(run.id));
    }
    Ok(())
}

/// The checks before a waiting run that lost its slot at boot is put back
/// in the queue: it must exist, belong to the session and be waiting for an
/// approval.
pub open spec fn spec_check_demotion(session_id: SessionId, run_id: RunId, run: Option<RunRecord>) -> Result<
    (),
    RunExecutionError,
> {
    match run {
        None => Err(RunExecutionError::RunNotFound(run_id)),
        Some(r) => if r.session_id != session_id {
            Err(RunExecutionError::RunSessionMismatch(r.id))
        } else if r.status != RunStatus::WaitingForApproval {
            Err(RunExecutionError::RunNotWaitingForApproval(r.id))
        } else {
            Ok(())
        },
    }
}

/// Check a demotion (see [`spec_check_demotion`]).
pub fn check_demotion(session_id: SessionId, run_id: RunId, run: Option<&RunRecord>) -> (r: Result<(), RunExecutionError>)
    ensures
        r == spec_check_demotion(session_id, run_id, spec_run_of(run)),
{
    match run {
        None => Err(RunExecutionError::RunNotFound(run_id)),
        Some(x) => if x.session_id != session_id {
            Err(RunExecutionError::RunSessionMismatch(x.id))
        } else if x.status != RunStatus::WaitingForApproval {
            Err(RunExecutionError::RunNotWaitingForApproval(x.id))
        } else {
            Ok(())
        },
    }
}

/// An approval still pending on a run.
#[derive(Debug, Clone, Copy, PartialEq, Eq, Structural)]
pub struct PendingApproval {
    pub approval_id: u64,
    pub run_id: RunId,
    pub tool_call_id: Option<u64>,
}

/// An event recorded when a run breaches its budget.
#[derive(Debug)]
pub enum BudgetFailureEvent {
    /// The breach itself.
    Exceeded(BudgetExceededEvent),
    /// A pending approval of the run, rejected because of the breach.
    ApprovalRejected { approval: PendingApproval, reason: ApprovalResolutionReason },
    /// The run ends over budget.
    RunTerminal { run_id: RunId, status: RunStatus, recipe_id: Option<String> },
}

/// The events of failing a run for its budget: the breach, each pending
/// approval rejected for it in order, then the run's terminal status.
pub open spec fn spec_budget_failure_events(
    projection: BudgetProjection,
    exceeded: BudgetExceeded,
    pending: Seq<PendingApproval>,
    run: RunRecord,
    events: Seq<BudgetFailureEvent>,
) -> bool {
    &&& events.len() == pending.len() + 2
    &&& events[0] == BudgetFailureEvent::Exceeded(spec_budget_exceeded_event(projection, exceeded))
    &&& forall|i: int|
        0 <= i < pending.len() ==> #[trigger] events[i + 1] == (BudgetFailureEvent::ApprovalRejected {
            approval: pending[i],
            reason: ApprovalResolutionReason::BudgetExceeded,
        })
    &&& events.last() matches BudgetFailureEvent::RunTerminal { run_id, status, recipe_id } && run_id == run.id
        && status == RunStatus::BudgetExceeded && spec_opt_view(recipe_id) == spec_recipe_id(run.source)
}

/// Fail a run for its budget: it must exist, belong to the session and be
/// running; the events are those of [`spec_budget_failure_events`].
pub fn plan_budget_failure(
    session_id: SessionId,
    run_id: RunId,
    run: Option<&RunRecord>,
    projection: &BudgetProjection,
    exceeded: BudgetExceeded,
    pending: &Vec<PendingApproval>,
) -> (r: Result<Vec<BudgetFailureEvent>, RunExecutionError>)
    ensures
        run is None ==> (r matches Err(RunExecutionError::RunNotFound(id)) && id == run_id),
        run matches Some(x) ==> (x.session_id != session_id ==> (r matches Err(RunExecutionError::RunSessionMismatch(id)) && id == x.id)),
        run matches Some(x) ==> (x.session_id == session_id && x.status != RunStatus::Running ==> (r matches Err(
            RunExecutionError::RunNotLiveOwned(id),
        ) && id == x.id)),
        run matches Some(x) ==> (x.session_id == session_id && x.status == RunStatus::Running ==> (r matches Ok(events)
            && spec_budget_failure_events(*projection, exceeded, pending@, *x, events@))),
{
    let x = match run {
        None => {
            return Err(RunExecutionError::RunNotFound(run_id));
        },
        Some(x) => x,
    };
    if x.session_id != session_id {
        return Err(RunExecutionError::RunSessionMismatch(x.id));
    }
    if x.status != RunStatus::Running {
        return Err(RunExecutionError::RunNotLiveOwned(x.id));
    }
    let mut events: Vec<BudgetFailureEvent> = Vec::new();
    events.push(BudgetFailureEvent::Exceeded(budget_exceeded_event(projection, exceeded)));
    let mut i: usize = 0;
    while i < pending.len()
        invariant
            0 <= i <= pending.len(),
            events@.len() == i + 1,
            events@[0] == BudgetFailureEvent::Exceeded(spec_budget_exceeded_event(*projection, exceeded)),
            forall|k: int|
                0 <= k < i ==> #[trigger] events@[k + 1] == (BudgetFailureEvent::ApprovalRejected {
                    approval: pending@[k],
                    reason: ApprovalResolutionReason::BudgetExceeded,
                }),
        decreases pending.len() - i,
    {
        events.push(
            BudgetFailureEvent::ApprovalRejected { approval: pending[i], reason: ApprovalResolutionReason::BudgetExceeded },
        );
        i = i + 1;
    }
    let recipe_id = recipe_id_for_run(x);
    events.push(BudgetFailureEvent::RunTerminal { run_id: x.id, status: RunStatus::BudgetExceeded, recipe_id });
    Ok(events)
}

/// The checks before a live run's store record changes under its lease: the
/// run must exist, belong to the session and be running.
pub open spec fn spec_check_live_run(session_id: SessionId, run_id: RunId, run: Option<RunRecord>) -> Result<
    (),
    RunExecutionError,
> {
    match run {
        None => Err(RunExecutionError::RunNotFound(run_id)),
        Some(r) => if r.session_id != session_id {
            Err(RunExecutionError::RunSessionMismatch(r.id))
        } else if r.status != RunStatus::Running {
            Err(RunExecutionError::RunNotLiveOwned(r.id))
        } else {
            Ok(())
        },
    }
}

/// Check a live run before its record changes (see [`spec_check_live_run`]).
pub fn check_live_run(session_id: SessionId, run_id: RunId, run: Option<&RunRecord>) -> (r: Result<(), RunExecutionError>)
    ensures
        r == spec_check_live_run(session_id, run_id, spec_run_of(run)),
{
    match run {
        None => Err(RunExecutionError::RunNotFound(run_id)),
        Some(x) => if x.session_id != session_id {
            Err(RunExecutionError::RunSessionMismatch(x.id))
        } else if x.status != RunStatus::Running {
            Err(RunExecutionError::RunNotLiveOwned(x.id))
        } else {
            Ok(())
        },
    }
}

/// The checks before a live run records an approval request or resolution:
/// the approval must name the run, which must then pass [`check_live_run`].
pub fn check_live_approval_event(
    session_id: SessionId,
    run_id: RunId,
    approval_run_id: RunId,
    run: Option<&RunRecord>,
) -> (r: Result<(), RunExecutionError>)
    ensures
        r == if approval_run_id != run_id {
            Err(RunExecutionError::RunSessionMismatch(approval_run_id))
        } else {
            spec_check_live_run(session_id, run_id, spec_run_of(run))
        },
{
    if approval_run_id != run_id {
        return Err(RunExecutionError::RunSessionMismatch(approval_run_id));
    }
    check_live_run(session_id, run_id, run)
}

/// How a provider failure ends a run.
#[derive(Debug)]
pub enum ProviderFailure {
    RateLimited,
    CreditsExhausted,
    Other(String),
}

/// Why a route's credentials are exhausted.
#[derive(Debug, Clone, Copy, PartialEq, Eq, Structural)]
pub enum AuthProfileExhaustion {
    RateLimited,
    CreditsExhausted,
}

/// What failing a run records: a typed exhaustion of its route, or a
/// plain failure with the provider's detail.
#[derive(Debug)]
pub enum RunFailure {
    Exhausted(AuthProfileExhaustion),
    Failed(String),
}

/// Classify a provider failure: rate limits and exhausted credits mark the
/// route as exhausted; anything else fails the run with its detail.
pub fn classify_provider_failure(f: ProviderFailure) -> (r: RunFailure)
    ensures
        f is RateLimited ==> r == RunFailure::Exhausted(AuthProfileExhaustion::RateLimited),
        f is CreditsExhausted ==> r == RunFailure::Exhausted(AuthProfileExhaustion::CreditsExhausted),
        f matches ProviderFailure::Other(d) ==> (r matches RunFailure::Failed(x) && x@ == d@),
{
    match f {
        ProviderFailure::RateLimited => RunFailure::Exhausted(AuthProfileExhaustion::RateLimited),
        ProviderFailure::CreditsExhausted => RunFailure::Exhausted(AuthProfileExhaustion::CreditsExhausted),
        ProviderFailure::Other(d) => RunFailure::Failed(d),
    }
}

/// The failure detail of a run whose route's credentials are exhausted.
pub open spec fn spec_exhaustion_detail(e: AuthProfileExhaustion) -> Seq<char> {
    match e {
        AuthProfileExhaustion::RateLimited => "The selected account is rate limited."@,
        AuthProfileExhaustion::CreditsExhausted => "The selected account has exhausted its credits."@,
    }
}

/// The failure detail of a run whose route's credentials are exhausted.
pub fn exhaustion_detail(e: AuthProfileExhaustion) -> (d: &'static str)
    ensures
        d@ == spec_exhaustion_detail(e),
{
    match e {
        AuthProfileExhaustion::RateLimited => "The selected account is rate limited.",
        AuthProfileExhaustion::CreditsExhausted => "The selected account has exhausted its credits.",
    }
}

/// How a live run's failure is recorded.
#[derive(Debug)]
pub struct LiveFailurePlan {
    /// The reason recorded with the failure.
    pub detail: String,
    /// Whether the completion (contract and result) is kept with it.
    pub keep_completion: bool,
    /// The exhaustion marked on the route's credentials, if any.
    pub mark_auth_profile: Option<AuthProfileExhaustion>,
}

/// How a live run's failure is recorded: when the after-turn checkpoint
/// could not be captured the completion is dropped, and a plain failure
/// says so in its detail; an exhausted route is marked on its credentials
/// when the route has any.
pub open spec fn spec_live_failure(
    detail: Seq<char>,
    exhaustion: Option<AuthProfileExhaustion>,
    checkpoint_captured: bool,
    route_has_auth_profile: bool,
    p: LiveFailurePlan,
) -> bool {
    &&& p.detail@ == (if !checkpoint_captured && exhaustion is None {
        detail + "; the after-turn Git checkpoint could not be captured"@
    } else {
        detail
    })
    &&& p.keep_completion == checkpoint_captured
    &&& p.mark_auth_profile == (if route_has_auth_profile {
        exhaustion
    } else {
        None
    })
}

/// Decide how a live run's failure is recorded (see [`spec_live_failure`]).
pub fn plan_live_failure(
    detail: String,
    exhaustion: Option<AuthProfileExhaustion>,
    checkpoint_captured: bool,
    route_has_auth_profile: bool,
) -> (p: LiveFailurePlan)
    ensures
        spec_live_failure(detail@, exhaustion, checkpoint_captured, route_has_auth_profile, p),
{
    let mut detail = detail;
    if !checkpoint_captured && exhaustion.is_none() {
        detail.append("; the after-turn Git checkpoint could not be captured");
    }
    LiveFailurePlan {
        detail,
        keep_completion: checkpoint_captured,
        mark_auth_profile: if route_has_auth_profile {
            exhaustion
        } else {
            None
        },
    }
}

/// A rejected or expired approval fails the waiting run; an approved one
/// lets it run; a live run keeps its status and gets the resolution.
pub proof fn law_approval_outcomes(
    approval_id: u64,
    session_id: SessionId,
    lookup: ApprovalLookup,
    run_status: Option<RunStatus>,
    live_owned: bool,
    decision: ApprovalDecision,
)
    ensures
        spec_plan_approval_decision(approval_id, session_id, lookup, false, run_status, true, live_owned, decision)
            matches Ok(ApprovalDecisionPlan::Transition { status }) ==> {
            &&& run_status == Some(RunStatus::WaitingForApproval)
            &&& (status == RunStatus::Running <==> decision == ApprovalDecision::Approved)
            &&& (status == RunStatus::Failed <==> decision == ApprovalDecision::Rejected)
        },
        spec_plan_approval_decision(approval_id, session_id, lookup, false, run_status, true, live_owned, decision)
            is Ok && spec_plan_approval_decision(approval_id, session_id, lookup, false, run_status, true, live_owned, decision)->Ok_0
            == ApprovalDecisionPlan::ResolveLive ==> run_status == Some(RunStatus::Running) && live_owned,
        lookup is Pending ==> spec_plan_approval_decision(approval_id, session_id, lookup, true, run_status, true, live_owned, decision)
            == Ok::<ApprovalDecisionPlan, RunExecutionError>(ApprovalDecisionPlan::Expire),
        lookup is Resolved ==> spec_plan_approval_decision(approval_id, session_id, lookup, false, run_status, true, live_owned, decision)
            == Err::<ApprovalDecisionPlan, RunExecutionError>(RunExecutionError::ApprovalAlreadyResolved(approval_id)),
{
}

/// Only open runs can be cancelled, and a running run only while a live
/// execution owns it.
pub proof fn law_cancel_only_open_runs(
    run_id: RunId,
    session_id: SessionId,
    status: RunStatus,
    live_owned: bool,
)
    ensures
        spec_plan_cancel(run_id, session_id, Some((session_id, status)), live_owned, true) is Ok <==> (
        status.spec_is_open() && (status == RunStatus::Running ==> live_owned)),
{
}

/// A finished run can never be resumed.
pub proof fn law_terminal_runs_not_resumable(
    run_id: RunId,
    status: RunStatus,
    harness: RunHarnessKind,
    profile_is_native: bool,
    live_owned: bool,
)
    requires
        status.spec_is_terminal(),
    ensures
        spec_resume_state(run_id, status, harness, profile_is_native, live_owned) is Err,
{
}

} // verus!

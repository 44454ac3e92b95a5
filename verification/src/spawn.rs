//! Spawning a fresh child run, as two steps around the work that only the
//! service can do. The first step admits the child to its session once its
//! checks have passed; the service then prepares the child's execution
//! context; the second step either gives every slot back when that failed,
//! or builds the child's record and first transition.

use vstd::prelude::*;

use crate::active_execution::ActiveExecutionOwner;
use crate::errors::RunExecutionError;
use crate::execution_policy::PolicyDecision;
use crate::recipes::{copy_opt_text, spec_text_opt, ResolvedDelegation};
use crate::run::{RunHarnessKind, RunId, RunRecord, RunSource, RunStatus, SessionId, WorkspaceMode};
use crate::scheduler::{
    spec_finish_result, spec_schedule_outcome, spec_schedule_result, RunScheduleDisposition, RunScheduler,
    RunSchedulingPolicy,
};
use crate::transitions::{
    build_queue_transition, build_start_transition, finish_scheduled_run, scheduler_error, spec_event_views,
    spec_start_events, spec_start_status, ApprovalSeed, TransitionEvent, TransitionEventView,
};
use crate::workspace::WorkspaceRunRegistry;

verus! {

/// A fresh child that passed its checks and holds its session's answer.
#[derive(Debug)]
pub struct AdmittedSpawn {
    pub delegation: ResolvedDelegation,
    pub disposition: RunScheduleDisposition,
}

/// Admit a fresh child whose checks (see `check_spawn_start`) gave
/// `checked`: a refusal stands and the scheduler is left alone; otherwise
/// the child asks for a slot beside busy runs, and a full queue refuses it.
pub fn admit_spawn(
    scheduler: &mut RunScheduler,
    checked: Result<ResolvedDelegation, RunExecutionError>,
    session_id: SessionId,
    run_id: RunId,
) -> (r: Result<AdmittedSpawn, RunExecutionError>)
    ensures
        checked is Err ==> *final(scheduler) == *old(scheduler) && r == Err::<AdmittedSpawn, RunExecutionError>(
            checked->Err_0,
        ),
        checked is Ok ==> {
            let outcome = spec_schedule_outcome(*old(scheduler), session_id, RunSchedulingPolicy::ParallelIfBusy);
            &&& spec_schedule_result(
                *old(scheduler),
                *final(scheduler),
                session_id,
                run_id,
                RunSchedulingPolicy::ParallelIfBusy,
                outcome,
            )
            &&& match outcome {
                Err(e) => r == Err::<AdmittedSpawn, RunExecutionError>(scheduler_error_spec(e)),
                Ok(d) => r == Ok::<AdmittedSpawn, RunExecutionError>(
                    AdmittedSpawn { delegation: checked->Ok_0, disposition: d },
                ),
            }
        },
{
    let delegation = match checked {
        Err(e) => {
            return Err(e);
        },
        Ok(d) => d,
    };
    match scheduler.schedule_start_with_policy(session_id, run_id, RunSchedulingPolicy::ParallelIfBusy) {
        Err(e) => Err(scheduler_error(e)),
        Ok(disposition) => Ok(AdmittedSpawn { delegation, disposition }),
    }
}

/// The error a scheduler refusal maps to.
pub open spec fn scheduler_error_spec(e: crate::scheduler::RunSchedulerError) -> RunExecutionError {
    match e {
        crate::scheduler::RunSchedulerError::QueueFull(sid) => RunExecutionError::RunQueueFull(sid),
    }
}

/// The record of a fresh child: a fresh spawn of its parent with the
/// requested workspace scope and the delegation's contract and recipe, in
/// the status its first transition gives, not yet started.
pub open spec fn spec_spawned_record(
    rec: RunRecord,
    run_id: RunId,
    session_id: SessionId,
    status: RunStatus,
    harness: RunHarnessKind,
    parent_run_id: RunId,
    workspace_scope: WorkspaceMode,
    delegation: ResolvedDelegation,
) -> bool {
    &&& rec.id == run_id
    &&& rec.session_id == session_id
    &&& rec.status == status
    &&& rec.harness == harness
    &&& rec.source matches RunSource::FreshSpawn { parent_run_id: p, workspace_scope: w, output_contract: c, recipe_id: rid }
        && p == parent_run_id && w == workspace_scope && c == delegation.output_contract && spec_text_opt(rid)
        == spec_text_opt(delegation.recipe_id)
    &&& rec.started_at_ms is None
    &&& rec.ended_at_ms is None
    &&& rec.last_event_seq is None
}

/// Settle an admitted fresh child once its execution context was prepared
/// (`prepared`). A failed preparation gives every slot back (see
/// `finish_scheduled_run`, with the run failed) and answers with its
/// error. Otherwise the child's record and first transition are built: a
/// child that may start now starts under the policy `decision` for its
/// context, a child that must wait is queued.
pub fn settle_spawn(
    owner: &mut ActiveExecutionOwner,
    workspace_runs: &mut WorkspaceRunRegistry,
    scheduler: &mut RunScheduler,
    session_id: SessionId,
    run_id: RunId,
    admitted: AdmittedSpawn,
    prepared: Result<(), RunExecutionError>,
    decision: PolicyDecision,
    seed: ApprovalSeed,
    parent_run_id: RunId,
    workspace_scope: WorkspaceMode,
    harness: RunHarnessKind,
) -> (r: Result<(RunRecord, Vec<TransitionEvent>), RunExecutionError>)
    ensures
        prepared is Err ==> {
            &&& r == Err::<(RunRecord, Vec<TransitionEvent>), RunExecutionError>(prepared->Err_0)
            &&& final(owner).entries() == old(owner).entries().remove(run_id)
            &&& final(workspace_runs)@ == old(workspace_runs)@.remove(run_id)
            &&& exists|promoted: Option<RunId>| #[trigger]
                spec_finish_result(*old(scheduler), *final(scheduler), session_id, run_id, promoted)
        },
        prepared is Ok ==> {
            &&& *final(owner) == *old(owner)
            &&& *final(workspace_runs) == *old(workspace_runs)
            &&& *final(scheduler) == *old(scheduler)
            &&& r matches Ok((rec, events)) && match admitted.disposition {
                RunScheduleDisposition::StartNow => {
                    &&& spec_spawned_record(
                        rec,
                        run_id,
                        session_id,
                        spec_start_status(decision),
                        harness,
                        parent_run_id,
                        workspace_scope,
                        admitted.delegation,
                    )
                    &&& spec_event_views(events@) == spec_start_events(
                        run_id,
                        decision,
                        spec_text_opt(admitted.delegation.recipe_id),
                        seed,
                    )
                },
                RunScheduleDisposition::Queued { .. } => {
                    &&& spec_spawned_record(
                        rec,
                        run_id,
                        session_id,
                        RunStatus::Queued,
                        harness,
                        parent_run_id,
                        workspace_scope,
                        admitted.delegation,
                    )
                    &&& spec_event_views(events@) == seq![
                        TransitionEventView::RunActive {
                            run_id,
                            status: RunStatus::Queued,
                            recipe_id: spec_text_opt(admitted.delegation.recipe_id),
                        },
                    ]
                },
            }
        },
{
    if let Err(e) = prepared {
        let finished = finish_scheduled_run(owner, workspace_runs, scheduler, session_id, run_id, RunStatus::Failed);
        assert(spec_finish_result(*old(scheduler), *scheduler, session_id, run_id, finished.promoted));
        return Err(e);
    }
    let recipe_for_events = copy_opt_text(&admitted.delegation.recipe_id);
    let (status, events) = match admitted.disposition {
        RunScheduleDisposition::StartNow => build_start_transition(run_id, decision, recipe_for_events, seed),
        RunScheduleDisposition::Queued { .. } => build_queue_transition(run_id, recipe_for_events),
    };
    let delegation = admitted.delegation;
    let rec = RunRecord {
        id: run_id,
        session_id,
        status,
        harness,
        source: RunSource::FreshSpawn {
            parent_run_id,
            workspace_scope,
            output_contract: delegation.output_contract,
            recipe_id: copy_opt_text(&delegation.recipe_id),
        },
        started_at_ms: None,
        ended_at_ms: None,
        last_event_seq: None,
    };
    Ok((rec, events))
}

} // verus!

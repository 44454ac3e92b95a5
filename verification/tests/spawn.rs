use ta_orchestrator::active_execution::ActiveExecutionOwner;
use ta_orchestrator::errors::RunExecutionError;
use ta_orchestrator::execution_policy::PolicyDecision;
use ta_orchestrator::recipes::check_spawn_start;
use ta_orchestrator::run::{RunHarnessKind, RunRecord, RunSource, RunStatus, WorkspaceMode};
use ta_orchestrator::scheduler::{RunScheduleDisposition, RunScheduler};
use ta_orchestrator::spawn::{admit_spawn, settle_spawn};
use ta_orchestrator::transitions::{ApprovalSeed, TransitionEvent};
use ta_orchestrator::workspace::{WorkspaceRunRegistry, WorkspaceRunResources};

fn parent() -> RunRecord {
    RunRecord {
        id: 1,
        session_id: 1,
        status: RunStatus::Running,
        harness: RunHarnessKind::Native,
        source: RunSource::User { output_contract: None, recipe_id: None },
        started_at_ms: None,
        ended_at_ms: None,
        last_event_seq: None,
    }
}

fn seed() -> ApprovalSeed {
    ApprovalSeed { approval_id: 9, requested_at_ms: 100, expires_at_ms: 200 }
}

#[test]
fn spawn_checks_session_then_objective_then_parent() {
    let p = parent();
    assert!(matches!(
        check_spawn_start(2, 1, &Vec::new(), None, "   ", None, None, 7, None),
        Err(RunExecutionError::RunSessionMismatch(2))
    ));
    assert!(matches!(
        check_spawn_start(1, 1, &Vec::new(), None, "   ", None, None, 7, None),
        Err(RunExecutionError::EmptyRunObjective)
    ));
    assert!(matches!(
        check_spawn_start(1, 1, &Vec::new(), None, "Work", None, None, 7, None),
        Err(RunExecutionError::RunNotFound(7))
    ));
    assert!(check_spawn_start(1, 1, &Vec::new(), None, "Work", None, None, 1, Some(&p)).is_ok());
}

#[test]
fn spawned_child_runs_beside_its_busy_parent() {
    let mut scheduler = RunScheduler::new();
    scheduler.schedule_start(1, 1).unwrap();
    let checked = check_spawn_start(1, 1, &Vec::new(), None, " Fresh child ", None, None, 1, Some(&parent()));
    let admitted = admit_spawn(&mut scheduler, checked, 1, 20).expect("admitted");
    assert_eq!(admitted.disposition, RunScheduleDisposition::StartNow);
    assert_eq!(admitted.delegation.objective, "Fresh child");
    let mut owner = ActiveExecutionOwner::new();
    let mut workspace_runs = WorkspaceRunRegistry::new();
    let (record, events) = settle_spawn(
        &mut owner,
        &mut workspace_runs,
        &mut scheduler,
        1,
        20,
        admitted,
        Ok(()),
        PolicyDecision::Allow,
        seed(),
        1,
        WorkspaceMode::WorkspaceWrite,
        RunHarnessKind::Native,
    )
    .expect("spawned");
    assert_eq!(record.id, 20);
    assert_eq!(record.status, RunStatus::Running);
    assert!(matches!(
        record.source,
        RunSource::FreshSpawn { parent_run_id: 1, workspace_scope: WorkspaceMode::WorkspaceWrite, output_contract: None, recipe_id: None }
    ));
    assert!(matches!(&events[..], [TransitionEvent::RunActive { run_id: 20, status: RunStatus::Running, .. }]));
}

#[test]
fn failed_preparation_gives_every_slot_back() {
    let mut scheduler = RunScheduler::new();
    let checked = check_spawn_start(1, 1, &Vec::new(), None, "Child", None, None, 1, Some(&parent()));
    let admitted = admit_spawn(&mut scheduler, checked, 1, 20).expect("admitted");
    let mut owner = ActiveExecutionOwner::new();
    owner.claim_run(20, 1);
    let mut workspace_runs = WorkspaceRunRegistry::new();
    workspace_runs.insert(20, WorkspaceRunResources { worktree: Some(3), claim: true });
    let r = settle_spawn(
        &mut owner,
        &mut workspace_runs,
        &mut scheduler,
        1,
        20,
        admitted,
        Err(RunExecutionError::SessionWorkspaceNotFound(5)),
        PolicyDecision::Allow,
        seed(),
        1,
        WorkspaceMode::WorkspaceWrite,
        RunHarnessKind::Native,
    );
    assert!(matches!(r, Err(RunExecutionError::SessionWorkspaceNotFound(5))));
    assert_eq!(owner.active_count(), 0);
    assert_eq!(workspace_runs.active_count(), 0);
    // The slot is free again: a new run starts at once.
    assert_eq!(scheduler.schedule_start(1, 21).unwrap(), RunScheduleDisposition::StartNow);
}

#[test]
fn refused_checks_leave_the_scheduler_alone() {
    let mut scheduler = RunScheduler::new();
    let checked = check_spawn_start(1, 1, &Vec::new(), None, "Child", None, None, 7, None);
    assert!(matches!(admit_spawn(&mut scheduler, checked, 1, 20), Err(RunExecutionError::RunNotFound(7))));
    assert_eq!(scheduler.schedule_start(1, 21).unwrap(), RunScheduleDisposition::StartNow);
}

use ta_orchestrator::errors::{NotResumableReason, RunExecutionError};
use ta_orchestrator::lineage::{
    after_provider_start, check_continue, check_fork_parent, check_join, check_native_child_parent,
    check_replacement_route, check_route_switch, check_spawn_parent, child_scheduling_policy, fork_objective,
    AfterProviderStart, RunExecutionRoute,
};
use ta_orchestrator::run::{RunHarnessKind, RunRecord, RunSource, RunStatus, WorkspaceMode};
use ta_orchestrator::run::{lineage_parent_run_id, parent_run_id};
use ta_orchestrator::scheduler::{RunScheduleDisposition, RunScheduler, RunSchedulingPolicy};

fn run(id: u64, status: RunStatus, harness: RunHarnessKind, source: RunSource) -> RunRecord {
    RunRecord {
        id,
        session_id: 1,
        status,
        harness,
        source,
        started_at_ms: None,
        ended_at_ms: None,
        last_event_seq: Some(10),
    }
}

fn user() -> RunSource {
    RunSource::User { output_contract: None, recipe_id: None }
}

fn forked() -> RunSource {
    RunSource::Forked { parent_run_id: 1, parent_event_seq: 4 }
}

#[test]
fn fork_run_records_lineage_for_active_native_parent() {
    let parent = run(1, RunStatus::Running, RunHarnessKind::Native, user());
    assert!(check_fork_parent(1, 1, 1, Some(&parent), 4, Some(4)).is_ok());
    assert_eq!(fork_objective(None, "Parent objective").unwrap(), "Parent objective");
    assert_eq!(fork_objective(Some("  child  "), "Parent objective").unwrap(), "child");
    assert!(matches!(fork_objective(Some("   "), "Parent"), Err(RunExecutionError::EmptyRunObjective)));
    assert!(matches!(fork_objective(None, " "), Err(RunExecutionError::EmptyRunObjective)));
}

#[test]
fn fork_run_allows_completed_and_failed_native_parents() {
    for status in [RunStatus::Completed, RunStatus::Failed] {
        let parent = run(1, status, RunHarnessKind::Native, user());
        assert!(check_fork_parent(1, 1, 1, Some(&parent), 10, Some(10)).is_ok());
    }
}

#[test]
fn fork_parents_are_checked_in_order() {
    let parent = run(1, RunStatus::Running, RunHarnessKind::Native, user());
    assert!(matches!(check_fork_parent(2, 1, 1, Some(&parent), 4, Some(4)), Err(RunExecutionError::RunSessionMismatch(1))));
    assert!(matches!(check_fork_parent(1, 1, 9, None, 4, Some(4)), Err(RunExecutionError::RunNotFound(9))));
    let acp = run(1, RunStatus::Running, RunHarnessKind::Acp, user());
    assert!(matches!(check_fork_parent(1, 1, 1, Some(&acp), 4, Some(4)), Err(RunExecutionError::RunNotNativeHarness(1))));
    assert!(matches!(
        check_fork_parent(1, 1, 1, Some(&parent), 11, Some(11)),
        Err(RunExecutionError::RunForkPointNotFound { run_id: 1, boundary: 11 })
    ));
    assert!(matches!(
        check_fork_parent(1, 1, 1, Some(&parent), 4, Some(5)),
        Err(RunExecutionError::RunForkPointNotFound { run_id: 1, boundary: 4 })
    ));
}

#[test]
fn same_message_continuation_persists_distinct_durable_turn() {
    let fork = run(3, RunStatus::Completed, RunHarnessKind::Native, forked());
    assert_eq!(check_continue(1, 1, 3, "  next step ", &fork).unwrap(), "next step");
    assert!(matches!(check_continue(1, 1, 3, "   ", &fork), Err(RunExecutionError::EmptyRunObjective)));
    assert!(matches!(check_continue(2, 1, 3, "go", &fork), Err(RunExecutionError::RunSessionMismatch(3))));
    let live = run(3, RunStatus::Running, RunHarnessKind::Native, forked());
    assert!(matches!(
        check_continue(1, 1, 3, "go", &live),
        Err(RunExecutionError::RunNotResumable { run_id: 3, reason: NotResumableReason::StillOpen })
    ));
    let not_fork = run(3, RunStatus::Completed, RunHarnessKind::Native, user());
    assert!(matches!(check_continue(1, 1, 3, "go", &not_fork), Err(RunExecutionError::RunNotNativeHarness(3))));
}

#[test]
fn fresh_spawn_join_is_direct_lineage_idempotent_for_pending_child() {
    let child = run(
        5,
        RunStatus::Queued,
        RunHarnessKind::Native,
        RunSource::FreshSpawn { parent_run_id: 1, workspace_scope: WorkspaceMode::WorkspaceWrite, output_contract: None, recipe_id: None },
    );
    assert!(check_join(1, 1, 5, 1, Some(&child)).is_ok());
    assert!(check_join(1, 1, 5, 1, Some(&child)).is_ok());
    assert!(matches!(check_join(1, 1, 5, 2, Some(&child)), Err(RunExecutionError::RunNotFound(5))));
    assert!(matches!(check_join(1, 1, 5, 1, None), Err(RunExecutionError::RunNotFound(5))));
    assert!(matches!(check_join(7, 1, 5, 1, Some(&child)), Err(RunExecutionError::RunSessionMismatch(7))));
    let native = run(5, RunStatus::Queued, RunHarnessKind::Native, forked());
    assert!(matches!(check_join(1, 1, 5, 1, Some(&native)), Err(RunExecutionError::RunNotFound(5))));
}

#[test]
fn fresh_spawn_parents_must_belong_to_the_session() {
    let parent = run(1, RunStatus::Running, RunHarnessKind::Native, user());
    assert!(check_spawn_parent(1, 1, 1, Some(&parent)).is_ok());
    assert!(matches!(check_spawn_parent(1, 1, 1, None), Err(RunExecutionError::RunNotFound(1))));
    assert!(matches!(check_spawn_parent(1, 2, 1, Some(&parent)), Err(RunExecutionError::RunSessionMismatch(1))));
}

#[test]
fn start_native_child_run_rejects_missing_parent() {
    assert!(matches!(check_native_child_parent(1, 4, None, true), Err(RunExecutionError::RunNotFound(4))));
}

#[test]
fn start_native_child_run_rejects_external_parent_harness() {
    let acp = run(1, RunStatus::Running, RunHarnessKind::Acp, user());
    assert!(matches!(check_native_child_parent(1, 1, Some(&acp), true), Err(RunExecutionError::RunNotNativeHarness(1))));
    let native = run(1, RunStatus::Running, RunHarnessKind::Native, user());
    assert!(check_native_child_parent(1, 1, Some(&native), true).is_ok());
    assert!(matches!(check_native_child_parent(1, 1, Some(&native), false), Err(RunExecutionError::RunNotLiveOwned(1))));
    assert_eq!(child_scheduling_policy(WorkspaceMode::WorktreeWrite), RunSchedulingPolicy::ParallelIfBusy);
    assert_eq!(child_scheduling_policy(WorkspaceMode::WorkspaceWrite), RunSchedulingPolicy::QueueIfBusy);
}

#[test]
fn unexhausted_route_rejects_without_creating_a_child() {
    let failed = run(1, RunStatus::Failed, RunHarnessKind::Native, user());
    assert!(matches!(check_route_switch(1, 1, 1, Some(&failed), false), Err(RunExecutionError::RunNotRouteExhausted(1))));
    assert_eq!(check_route_switch(1, 1, 1, Some(&failed), true).unwrap(), 10);
    let running = run(1, RunStatus::Running, RunHarnessKind::Native, user());
    assert!(matches!(check_route_switch(1, 1, 1, Some(&running), true), Err(RunExecutionError::RunNotRouteExhausted(1))));
    let scheduled = run(1, RunStatus::Failed, RunHarnessKind::Native, RunSource::ScheduledWork { scheduled_work_id: 1, occurrence_id: 1 });
    assert!(matches!(check_route_switch(1, 1, 1, Some(&scheduled), true), Err(RunExecutionError::RunNotRouteExhausted(1))));
    let switched = run(1, RunStatus::Failed, RunHarnessKind::Native, RunSource::RouteSwitchedContinuation { parent_run_id: 9 });
    assert!(check_route_switch(1, 1, 1, Some(&switched), true).is_ok());
    assert!(matches!(check_route_switch(2, 1, 1, Some(&failed), true), Err(RunExecutionError::RunSessionMismatch(1))));
}

#[test]
fn started_runs_settle_against_their_provider() {
    assert_eq!(after_provider_start(false, RunStatus::Running), AfterProviderStart::FailLive);
    assert_eq!(after_provider_start(true, RunStatus::Running), AfterProviderStart::TakeLatest);
    assert_eq!(after_provider_start(false, RunStatus::Failed), AfterProviderStart::TakeLatest);
    assert_eq!(after_provider_start(false, RunStatus::Cancelled), AfterProviderStart::KeepCommitted);
    assert_eq!(after_provider_start(true, RunStatus::Cancelled), AfterProviderStart::KeepCommitted);
}

#[test]
fn start_native_child_run_records_parent_lineage_and_inherits_profile() {
    let parent = run(1, RunStatus::Running, RunHarnessKind::Native, user());
    assert!(check_native_child_parent(1, 1, Some(&parent), true).is_ok());
    let mut scheduler = RunScheduler::new();
    assert_eq!(scheduler.schedule_start(1, 1).unwrap(), RunScheduleDisposition::StartNow);
    // A child that writes in the shared workspace waits behind its running parent.
    let policy = child_scheduling_policy(WorkspaceMode::WorkspaceWrite);
    assert_eq!(
        scheduler.schedule_start_with_policy(1, 2, policy).unwrap(),
        RunScheduleDisposition::Queued { position: 1 }
    );
    let child = run(
        2,
        RunStatus::Queued,
        RunHarnessKind::Native,
        RunSource::NativeSubagent {
            parent_run_id: 1,
            parent_turn_id: 7,
            workspace_scope: WorkspaceMode::WorkspaceWrite,
            output_contract: None,
            recipe_id: None,
        },
    );
    assert_eq!(child.status, RunStatus::Queued);
    assert_eq!(parent_run_id(&child), Some(1));
    assert_eq!(lineage_parent_run_id(&child), Some(1));
}

fn route(model: Option<&str>) -> RunExecutionRoute {
    RunExecutionRoute {
        runtime_profile_id: "runtime-openai-safe".to_string(),
        provider_id: "openai".to_string(),
        model_id: model.map(str::to_string),
        auth_profile_id: Some("auth-1".to_string()),
        harness: RunHarnessKind::Native,
    }
}

#[test]
fn typed_exhaustion_with_equal_route_rejects_without_scheduling_or_durable_mutation() {
    let failed = run(1, RunStatus::Failed, RunHarnessKind::Native, user());
    assert_eq!(check_route_switch(1, 1, 1, Some(&failed), true).unwrap(), 10);
    assert!(matches!(
        check_replacement_route(&route(Some("gpt")), &route(Some("gpt"))),
        Err(RunExecutionError::ReplacementRouteMustDiffer)
    ));
    assert!(check_replacement_route(&route(Some("gpt")), &route(Some("other"))).is_ok());
    assert!(check_replacement_route(&route(None), &route(Some("gpt"))).is_ok());
    let mut other_credentials = route(None);
    other_credentials.auth_profile_id = None;
    assert!(check_replacement_route(&route(None), &other_credentials).is_ok());
}

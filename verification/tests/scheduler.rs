use ta_orchestrator::events::{EventPayload, EventRecord};
use ta_orchestrator::run::{RunHarnessKind, RunRecord, RunSource, RunStatus, WorkspaceMode};
use ta_orchestrator::scheduler::{
    first_run_event_sequence, scheduling_policy_for_run, PublishedWorkAction, RunScheduleDisposition, RunScheduler,
    RunSchedulerError, RunSchedulingPolicy, MAX_QUEUED_RUNS_PER_SESSION,
};

fn run_projection(id: u64, session_id: u64, source: RunSource) -> RunRecord {
    RunRecord {
        id,
        session_id,
        status: RunStatus::WaitingForApproval,
        harness: RunHarnessKind::Native,
        source,
        started_at_ms: None,
        ended_at_ms: None,
        last_event_seq: None,
    }
}

fn user_source() -> RunSource {
    RunSource::User { output_contract: None, recipe_id: None }
}

#[test]
fn fresh_spawn_direct_and_rehydrate_scheduler_on_boot_use_parallel_if_busy() {
    let session_id = 1;
    let parent_id = 10;
    let parent = run_projection(parent_id, session_id, user_source());
    let fresh = run_projection(
        20,
        session_id,
        RunSource::FreshSpawn {
            parent_run_id: parent_id,
            workspace_scope: WorkspaceMode::WorkspaceWrite,
            output_contract: None,
            recipe_id: None,
        },
    );
    let mut direct = RunScheduler::new();
    assert_eq!(
        direct
            .schedule_start_with_policy(session_id, parent.id, scheduling_policy_for_run(&parent))
            .expect("parent schedule"),
        RunScheduleDisposition::StartNow
    );
    assert_eq!(
        direct
            .schedule_start_with_policy(session_id, fresh.id, scheduling_policy_for_run(&fresh))
            .expect("fresh schedule"),
        RunScheduleDisposition::StartNow
    );

    let stored = vec![parent, fresh];
    let mut boot = RunScheduler::new();
    let plan = boot.rehydrate_from_store(&stored, &Vec::new());
    assert!(plan.demote_to_queued.is_empty());
    assert!(plan.promote_from_queue.is_empty());
}

#[test]
fn scheduled_work_uses_queue_if_busy() {
    let session_id = 3;
    let mut scheduler = RunScheduler::new();
    let first = run_projection(1, session_id, user_source());
    let scheduled = run_projection(
        2,
        session_id,
        RunSource::ScheduledWork { scheduled_work_id: 7, occurrence_id: 8 },
    );
    assert_eq!(scheduling_policy_for_run(&scheduled), RunSchedulingPolicy::QueueIfBusy);
    assert_eq!(
        scheduler.schedule_start(session_id, first.id).expect("first"),
        RunScheduleDisposition::StartNow
    );
    assert!(matches!(
        scheduler
            .schedule_start_with_policy(session_id, scheduled.id, scheduling_policy_for_run(&scheduled))
            .expect("scheduled"),
        RunScheduleDisposition::Queued { .. }
    ));
}

#[test]
fn queued_runs_are_served_first_in_first_out() {
    let mut scheduler = RunScheduler::new();
    assert_eq!(scheduler.schedule_start(1, 100).unwrap(), RunScheduleDisposition::StartNow);
    assert_eq!(scheduler.schedule_start(1, 101).unwrap(), RunScheduleDisposition::Queued { position: 1 });
    assert_eq!(scheduler.schedule_start(1, 102).unwrap(), RunScheduleDisposition::Queued { position: 2 });
    assert_eq!(scheduler.finish_run(1, 100), Some(101));
    assert_eq!(scheduler.finish_run(1, 101), Some(102));
    assert_eq!(scheduler.finish_run(1, 102), None);
    assert_eq!(scheduler.schedule_start(1, 103).unwrap(), RunScheduleDisposition::StartNow);
}

#[test]
fn finishing_a_queued_run_removes_it_from_the_queue() {
    let mut scheduler = RunScheduler::new();
    scheduler.schedule_start(1, 100).unwrap();
    scheduler.schedule_start(1, 101).unwrap();
    scheduler.schedule_start(1, 102).unwrap();
    assert_eq!(scheduler.finish_run(1, 101), None);
    assert_eq!(scheduler.finish_run(1, 100), Some(102));
}

#[test]
fn full_queue_refuses_new_runs() {
    let mut scheduler = RunScheduler::new();
    scheduler.schedule_start(9, 0).unwrap();
    for i in 0..MAX_QUEUED_RUNS_PER_SESSION {
        let d = scheduler.schedule_start(9, (i + 1) as u64).unwrap();
        assert_eq!(d, RunScheduleDisposition::Queued { position: i + 1 });
    }
    assert_eq!(scheduler.schedule_start(9, 999), Err(RunSchedulerError::QueueFull(9)));
    assert_eq!(scheduler.schedule_start(10, 999), Ok(RunScheduleDisposition::StartNow));
}

#[test]
fn parallel_runs_start_beside_active_ones_but_not_ahead_of_the_queue() {
    let mut scheduler = RunScheduler::new();
    scheduler.schedule_start(1, 1).unwrap();
    assert_eq!(
        scheduler.schedule_start_with_policy(1, 2, RunSchedulingPolicy::ParallelIfBusy).unwrap(),
        RunScheduleDisposition::StartNow
    );
    assert_eq!(scheduler.schedule_start(1, 3).unwrap(), RunScheduleDisposition::Queued { position: 1 });
    assert_eq!(
        scheduler.schedule_start_with_policy(1, 4, RunSchedulingPolicy::ParallelIfBusy).unwrap(),
        RunScheduleDisposition::Queued { position: 2 }
    );
}

#[test]
fn worktree_native_subagents_run_in_parallel() {
    let child = run_projection(
        5,
        1,
        RunSource::NativeSubagent {
            parent_run_id: 1,
            parent_turn_id: 3,
            workspace_scope: WorkspaceMode::WorktreeWrite,
            output_contract: None,
            recipe_id: None,
        },
    );
    assert_eq!(scheduling_policy_for_run(&child), RunSchedulingPolicy::ParallelIfBusy);
    let shared = run_projection(
        6,
        1,
        RunSource::NativeSubagent {
            parent_run_id: 1,
            parent_turn_id: 3,
            workspace_scope: WorkspaceMode::WorkspaceWrite,
            output_contract: None,
            recipe_id: None,
        },
    );
    assert_eq!(scheduling_policy_for_run(&shared), RunSchedulingPolicy::QueueIfBusy);
}

#[test]
fn first_status_event_wins() {
    let events = vec![
        EventRecord { sequence: 1, payload: EventPayload::Run { run_id: 5, status: RunStatus::Queued } },
        EventRecord { sequence: 2, payload: EventPayload::Other },
        EventRecord { sequence: 3, payload: EventPayload::Run { run_id: 5, status: RunStatus::Running } },
        EventRecord { sequence: 4, payload: EventPayload::Run { run_id: 6, status: RunStatus::Queued } },
    ];
    let m = first_run_event_sequence(&events);
    assert_eq!(m.get(&5), Some(&1));
    assert_eq!(m.get(&6), Some(&4));
    assert_eq!(m.len(), 2);
}

#[test]
fn rehydration_demotes_late_runs_and_promotes_into_idle_sessions() {
    let mut a = run_projection(30, 1, user_source());
    a.status = RunStatus::Running;
    let mut b = run_projection(20, 1, user_source());
    b.status = RunStatus::Running;
    let mut q = run_projection(40, 2, user_source());
    q.status = RunStatus::Queued;
    let mut done = run_projection(50, 1, user_source());
    done.status = RunStatus::Completed;
    let events = vec![
        EventRecord { sequence: 1, payload: EventPayload::Run { run_id: 30, status: RunStatus::Running } },
        EventRecord { sequence: 2, payload: EventPayload::Run { run_id: 20, status: RunStatus::Running } },
    ];
    let runs = vec![b, a, q, done];
    let mut scheduler = RunScheduler::new();
    let plan = scheduler.rehydrate_from_store(&runs, &events);
    assert_eq!(plan.demote_to_queued, vec![(1, 20)]);
    assert_eq!(plan.promote_from_queue, vec![(2, 40)]);
    assert_eq!(scheduler.finish_run(1, 30), Some(20));
    assert_eq!(scheduler.finish_run(2, 40), None);
    assert_eq!(scheduler.schedule_start(2, 41).unwrap(), RunScheduleDisposition::StartNow);
}

#[test]
fn published_scheduled_work_promotes_waits_then_cancels_when_full() {
    let mut scheduler = RunScheduler::new();
    assert!(matches!(scheduler.schedule_published_work(1, 100), PublishedWorkAction::Promote));
    for i in 0..MAX_QUEUED_RUNS_PER_SESSION as u64 {
        assert!(matches!(scheduler.schedule_published_work(1, 200 + i), PublishedWorkAction::Wait));
    }
    match scheduler.schedule_published_work(1, 999) {
        PublishedWorkAction::Cancel { detail } => assert_eq!(detail, "Scheduled work queue is full"),
        other => panic!("expected a cancellation, got {other:?}"),
    }
    // Another session is unaffected.
    assert!(matches!(scheduler.schedule_published_work(2, 300), PublishedWorkAction::Promote));
}

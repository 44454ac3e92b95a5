use ta_orchestrator::errors::{NotResumableReason, RunExecutionError};
use ta_orchestrator::execution_policy::PolicyDecision;
use ta_orchestrator::run::{RunHarnessKind, RunRecord, RunSource, RunStatus, WorkspaceMode};
use ta_orchestrator::scheduler::{RunScheduler, RunSchedulerError, RunSchedulingPolicy, MAX_QUEUED_RUNS_PER_SESSION};
use ta_orchestrator::transitions::{
    admit_new_run, plan_cancel_cascade, plan_expired_decision, scheduler_error, build_queue_transition, build_start_transition, cancel_detail, cancellable_native_child_run_ids,
    next_after_promotion, plan_approval_decision, plan_cancel, plan_expiration, resume_state, visit_cancel_cascade,
    ApprovalDecision, ApprovalDecisionPlan, ApprovalLookup, ApprovalSeed, CancelPlan, ExpirationPlan, ResumeRunState,
    TransitionEvent, MAX_NATIVE_CHILD_CANCEL_CASCADE_RUNS,
};

fn seed() -> ApprovalSeed {
    ApprovalSeed { approval_id: 9, requested_at_ms: 100, expires_at_ms: 200 }
}

fn pending(run_id: u64) -> ApprovalLookup {
    ApprovalLookup::Pending { run_id, expires_at_ms: 200, tool_call_id: None }
}

#[test]
fn decide_approval_rejects_already_resolved_request() {
    let r = plan_approval_decision(9, 1, ApprovalLookup::Resolved, false, None, true, false, ApprovalDecision::Approved);
    assert!(matches!(r, Err(RunExecutionError::ApprovalAlreadyResolved(9))));
}

#[test]
fn decide_approval_rejects_missing_request() {
    let r = plan_approval_decision(9, 1, ApprovalLookup::NotFound, false, None, true, false, ApprovalDecision::Approved);
    assert!(matches!(r, Err(RunExecutionError::ApprovalNotFound(9))));
}

#[test]
fn decide_approval_resolves_live_provider_handle_without_restarting_run() {
    let r = plan_approval_decision(
        9,
        1,
        pending(3),
        false,
        Some(RunStatus::Running),
        true,
        true,
        ApprovalDecision::Approved,
    );
    assert_eq!(r.unwrap(), ApprovalDecisionPlan::ResolveLive);
}

#[test]
fn approvals_move_waiting_runs() {
    let approve =
        plan_approval_decision(9, 1, pending(3), false, Some(RunStatus::WaitingForApproval), true, false, ApprovalDecision::Approved);
    assert_eq!(approve.unwrap(), ApprovalDecisionPlan::Transition { status: RunStatus::Running });
    let reject =
        plan_approval_decision(9, 1, pending(3), false, Some(RunStatus::WaitingForApproval), true, false, ApprovalDecision::Rejected);
    assert_eq!(reject.unwrap(), ApprovalDecisionPlan::Transition { status: RunStatus::Failed });
    let expired = plan_approval_decision(9, 1, pending(3), true, None, false, false, ApprovalDecision::Approved);
    assert_eq!(expired.unwrap(), ApprovalDecisionPlan::Expire);
    let not_waiting =
        plan_approval_decision(9, 1, pending(3), false, Some(RunStatus::Completed), true, false, ApprovalDecision::Approved);
    assert!(matches!(not_waiting, Err(RunExecutionError::RunNotWaitingForApproval(3))));
    let no_run = plan_approval_decision(9, 1, pending(3), false, None, true, false, ApprovalDecision::Approved);
    assert!(matches!(no_run, Err(RunExecutionError::RunNotFound(3))));
    let no_session =
        plan_approval_decision(9, 1, pending(3), false, Some(RunStatus::WaitingForApproval), false, false, ApprovalDecision::Approved);
    assert!(matches!(no_session, Err(RunExecutionError::SessionNotFound(1))));
}

#[test]
fn list_approvals_expires_stale_waiting_request() {
    assert_eq!(
        plan_expiration(3, 1, Some((1, RunStatus::WaitingForApproval)), false).unwrap(),
        ExpirationPlan { resolve_live: false, fail_run: true }
    );
    assert_eq!(
        plan_expiration(3, 1, Some((1, RunStatus::Running)), true).unwrap(),
        ExpirationPlan { resolve_live: true, fail_run: false }
    );
    assert!(matches!(plan_expiration(3, 1, None, false), Err(RunExecutionError::RunNotFound(3))));
    assert!(matches!(
        plan_expiration(3, 1, Some((2, RunStatus::Running)), true),
        Err(RunExecutionError::RunSessionMismatch(3))
    ));
}

#[test]
fn cancel_run_rejects_terminal_status() {
    for status in [RunStatus::Completed, RunStatus::Failed, RunStatus::Cancelled, RunStatus::BudgetExceeded] {
        assert!(matches!(plan_cancel(4, 1, Some((1, status)), true, true), Err(RunExecutionError::RunNotCancellable(4))));
    }
}

#[test]
fn cancel_running_run_resolves_pending_tool_approvals() {
    assert_eq!(
        plan_cancel(4, 1, Some((1, RunStatus::Running)), true, true).unwrap(),
        CancelPlan { cancel_live: true, reject_pending_approvals: true }
    );
    assert_eq!(
        plan_cancel(4, 1, Some((1, RunStatus::Queued)), false, true).unwrap(),
        CancelPlan { cancel_live: false, reject_pending_approvals: false }
    );
    assert_eq!(
        plan_cancel(4, 1, Some((1, RunStatus::WaitingForApproval)), false, true).unwrap(),
        CancelPlan { cancel_live: false, reject_pending_approvals: true }
    );
    assert!(matches!(plan_cancel(4, 1, None, true, true), Err(RunExecutionError::RunNotFound(4))));
    assert!(matches!(plan_cancel(4, 1, Some((2, RunStatus::Running)), true, true), Err(RunExecutionError::RunSessionMismatch(4))));
    assert!(matches!(plan_cancel(4, 1, Some((1, RunStatus::Queued)), false, false), Err(RunExecutionError::SessionNotFound(1))));
}

#[test]
fn cancel_run_promotes_the_next_queued_run() {
    let mut scheduler = RunScheduler::new();
    scheduler.schedule_start(1, 10).unwrap();
    scheduler.schedule_start(1, 11).unwrap();
    assert_eq!(scheduler.finish_run(1, 10), Some(11));
}

#[test]
fn cancel_cascade_visits_each_run_once_and_stops_at_its_bound() {
    let mut visited = Vec::new();
    assert!(visit_cancel_cascade(&mut visited, 1).is_ok());
    assert!(matches!(visit_cancel_cascade(&mut visited, 1), Err(RunExecutionError::RunNotCancellable(1))));
    assert_eq!(visited, vec![1]);
    for id in 2..=(MAX_NATIVE_CHILD_CANCEL_CASCADE_RUNS as u64) {
        assert!(visit_cancel_cascade(&mut visited, id).is_ok());
    }
    assert!(matches!(
        visit_cancel_cascade(&mut visited, 1000),
        Err(RunExecutionError::ProviderExecutionFailed(m)) if m == "native child cancel cascade exceeded 64 runs"
    ));
}

#[test]
fn cancel_details_trim_the_reason() {
    assert_eq!(cancel_detail(Some("  user stop \n")), "user stop");
    assert_eq!(cancel_detail(Some("   ")), "Run cancelled");
    assert_eq!(cancel_detail(None), "Run cancelled");
    assert_eq!(cancel_detail(Some("\u{3000}\u{85} stop \u{2009}go\u{a0}\t")), "stop \u{2009}go");
    assert_eq!(cancel_detail(Some("\u{200b}x")), "\u{200b}x");
}

fn record(id: u64, status: RunStatus, source: RunSource) -> RunRecord {
    RunRecord {
        id,
        session_id: 1,
        status,
        harness: RunHarnessKind::Native,
        source,
        started_at_ms: None,
        ended_at_ms: None,
        last_event_seq: None,
    }
}

fn child(parent: u64) -> RunSource {
    RunSource::NativeSubagent {
        parent_run_id: parent,
        parent_turn_id: 1,
        workspace_scope: WorkspaceMode::WorkspaceWrite,
        output_contract: None,
        recipe_id: None,
    }
}

#[test]
fn cancel_run_cascades_to_native_child_runs() {
    let runs = vec![
        record(9, RunStatus::Running, child(1)),
        record(3, RunStatus::Queued, child(1)),
        record(4, RunStatus::Completed, child(1)),
        record(5, RunStatus::Running, child(2)),
        record(6, RunStatus::Running, RunSource::Forked { parent_run_id: 1, parent_event_seq: 3 }),
        record(7, RunStatus::WaitingForApproval, child(1)),
    ];
    assert_eq!(cancellable_native_child_run_ids(&runs, 1, 1, &vec![7]), vec![3, 9]);
}

#[test]
fn cancel_parent_does_not_cancel_forked_run() {
    let runs = vec![record(6, RunStatus::Running, RunSource::Forked { parent_run_id: 1, parent_event_seq: 3 })];
    assert!(cancellable_native_child_run_ids(&runs, 1, 1, &Vec::new()).is_empty());
}

#[test]
fn resume_run_returns_live_native_state() {
    assert_eq!(resume_state(1, RunStatus::Running, RunHarnessKind::Native, true, true).unwrap(), ResumeRunState::Live);
    assert_eq!(resume_state(1, RunStatus::Queued, RunHarnessKind::Native, true, false).unwrap(), ResumeRunState::Queued);
    assert!(matches!(
        resume_state(1, RunStatus::WaitingForApproval, RunHarnessKind::Native, true, false),
        Err(RunExecutionError::RunNotResumable { run_id: 1, reason: NotResumableReason::NoLiveNativeOwner })
    ));
}

#[test]
fn resume_run_rejects_terminal_native_run() {
    assert!(matches!(
        resume_state(1, RunStatus::Completed, RunHarnessKind::Native, true, false),
        Err(RunExecutionError::RunNotResumable { run_id: 1, reason: NotResumableReason::Terminal })
    ));
}

#[test]
fn resume_run_rejects_external_harness_run() {
    assert!(matches!(
        resume_state(1, RunStatus::Running, RunHarnessKind::Acp, true, true),
        Err(RunExecutionError::RunNotNativeHarness(1))
    ));
}

#[test]
fn start_run_with_require_approval_mode_waits_for_approval() {
    let (status, events) = build_start_transition(
        5,
        PolicyDecision::RequireApproval { reason: "needs review".to_string() },
        None,
        seed(),
    );
    assert_eq!(status, RunStatus::WaitingForApproval);
    assert_eq!(events.len(), 2);
    assert!(matches!(&events[0], TransitionEvent::RunActive { run_id: 5, status: RunStatus::WaitingForApproval, .. }));
    assert!(matches!(
        &events[1],
        TransitionEvent::ApprovalRequested { approval_id: 9, run_id: 5, requested_at_ms: 100, expires_at_ms: 200, reason }
            if reason == "needs review"
    ));
}

#[test]
fn start_run_with_allow_mode_runs_without_approval() {
    let (status, events) = build_start_transition(5, PolicyDecision::Allow, Some("recipe".to_string()), seed());
    assert_eq!(status, RunStatus::Running);
    assert_eq!(events.len(), 1);
    assert!(matches!(
        &events[0],
        TransitionEvent::RunActive { run_id: 5, status: RunStatus::Running, recipe_id: Some(r) } if r == "recipe"
    ));
}

#[test]
fn start_run_with_deny_mode_fails_immediately() {
    let (status, events) = build_start_transition(5, PolicyDecision::Deny { reason: "denied".to_string() }, None, seed());
    assert_eq!(status, RunStatus::Failed);
    assert!(matches!(
        &events[0],
        TransitionEvent::RunTerminal { run_id: 5, status: RunStatus::Failed, reason, recipe_id: None } if reason == "denied"
    ));
}

#[test]
fn start_run_queues_when_session_already_has_active_run() {
    let mut scheduler = RunScheduler::new();
    scheduler.schedule_start(1, 1).unwrap();
    assert!(matches!(
        scheduler.schedule_start(1, 2).unwrap(),
        ta_orchestrator::scheduler::RunScheduleDisposition::Queued { position: 1 }
    ));
    let (status, events) = build_queue_transition(2, None);
    assert_eq!(status, RunStatus::Queued);
    assert!(matches!(&events[0], TransitionEvent::RunActive { run_id: 2, status: RunStatus::Queued, recipe_id: None }));
}

#[test]
fn failed_promotion_hands_the_slot_on() {
    let mut scheduler = RunScheduler::new();
    scheduler.schedule_start(1, 1).unwrap();
    scheduler.schedule_start(1, 2).unwrap();
    scheduler.schedule_start(1, 3).unwrap();
    assert_eq!(scheduler.finish_run(1, 1), Some(2));
    assert_eq!(next_after_promotion(&mut scheduler, 1, 2, RunStatus::Failed), Some(3));
    assert_eq!(next_after_promotion(&mut scheduler, 1, 3, RunStatus::Running), None);
}

use ta_orchestrator::budget::{BudgetExceeded, BudgetMetric, BudgetProjection, BudgetScope, BudgetUsage};
use ta_orchestrator::transitions::{
    check_demotion, check_live_approval_event, check_live_run, check_queued_for_promotion, classify_provider_failure, exhaustion_detail,
    plan_budget_failure, plan_live_failure,
    AuthProfileExhaustion, BudgetFailureEvent, PendingApproval, ProviderFailure, RunFailure,
};

fn user_run(id: u64, status: RunStatus) -> RunRecord {
    record(id, status, RunSource::User { output_contract: None, recipe_id: Some("r".to_string()) })
}

#[test]
fn queued_native_child_promotion_preserves_stored_runtime_policy() {
    assert!(check_queued_for_promotion(1, &user_run(2, RunStatus::Queued)).is_ok());
    assert!(matches!(check_queued_for_promotion(1, &user_run(2, RunStatus::Running)), Err(RunExecutionError::RunNotQueued(2))));
    let mut other = user_run(2, RunStatus::Queued);
    other.session_id = 5;
    assert!(matches!(check_queued_for_promotion(1, &other), Err(RunExecutionError::RunSessionMismatch(2))));
}

#[test]
fn demotions_need_a_waiting_run() {
    assert!(check_demotion(1, 2, Some(&user_run(2, RunStatus::WaitingForApproval))).is_ok());
    assert!(matches!(check_demotion(1, 2, Some(&user_run(2, RunStatus::Running))), Err(RunExecutionError::RunNotWaitingForApproval(2))));
    assert!(matches!(check_demotion(1, 2, None), Err(RunExecutionError::RunNotFound(2))));
}

#[test]
fn live_runs_are_checked_before_their_record_changes() {
    assert!(check_live_run(1, 2, Some(&user_run(2, RunStatus::Running))).is_ok());
    assert!(matches!(check_live_run(1, 2, Some(&user_run(2, RunStatus::Queued))), Err(RunExecutionError::RunNotLiveOwned(2))));
    assert!(matches!(check_live_run(1, 2, None), Err(RunExecutionError::RunNotFound(2))));
}

#[test]
fn typed_credit_exhaustion_marks_only_the_selected_route_profile() {
    assert!(matches!(
        classify_provider_failure(ProviderFailure::CreditsExhausted),
        RunFailure::Exhausted(AuthProfileExhaustion::CreditsExhausted)
    ));
    assert!(matches!(
        classify_provider_failure(ProviderFailure::RateLimited),
        RunFailure::Exhausted(AuthProfileExhaustion::RateLimited)
    ));
    assert!(matches!(
        classify_provider_failure(ProviderFailure::Other("boom".to_string())),
        RunFailure::Failed(d) if d == "boom"
    ));
}

#[test]
fn budget_failures_reject_pending_approvals_and_end_the_run() {
    let usage = BudgetUsage { total_tokens: 11, wall_clock_ms: 0, tool_calls: 0 };
    let projection = BudgetProjection { run_id: 2, parent_run_id: None, run_usage: usage, aggregate_usage: usage };
    let exceeded = BudgetExceeded { scope: BudgetScope::Run, metric: BudgetMetric::Tokens, limit: 10, actual: 11 };
    let pending = vec![
        PendingApproval { approval_id: 7, run_id: 2, tool_call_id: Some(3) },
        PendingApproval { approval_id: 8, run_id: 2, tool_call_id: None },
    ];
    let run = user_run(2, RunStatus::Running);
    let events = plan_budget_failure(1, 2, Some(&run), &projection, exceeded, &pending).unwrap();
    assert_eq!(events.len(), 4);
    assert!(matches!(&events[0], BudgetFailureEvent::Exceeded(e) if e.breach == exceeded && e.snapshot.total_tokens == 11));
    assert!(matches!(&events[1], BudgetFailureEvent::ApprovalRejected { approval, .. } if approval.approval_id == 7));
    assert!(matches!(&events[2], BudgetFailureEvent::ApprovalRejected { approval, .. } if approval.tool_call_id.is_none()));
    assert!(matches!(
        &events[3],
        BudgetFailureEvent::RunTerminal { run_id: 2, status: RunStatus::BudgetExceeded, recipe_id: Some(r) } if r == "r"
    ));
    let queued = user_run(2, RunStatus::Queued);
    assert!(matches!(
        plan_budget_failure(1, 2, Some(&queued), &projection, exceeded, &pending),
        Err(RunExecutionError::RunNotLiveOwned(2))
    ));
}

#[test]
fn cancel_forked_run_does_not_cancel_parent() {
    // The parent runs; its fork waits in the queue behind it.
    let parent = record(1, RunStatus::Running, RunSource::User { output_contract: None, recipe_id: None });
    let fork = record(6, RunStatus::Queued, RunSource::Forked { parent_run_id: 1, parent_event_seq: 3 });
    assert!(matches!(fork.source, RunSource::Forked { .. }));
    assert_eq!(
        plan_cancel(6, 1, Some((1, fork.status)), false, true).unwrap(),
        CancelPlan { cancel_live: false, reject_pending_approvals: false }
    );
    // The cascade from the fork reaches no other run: the parent stays running.
    let runs = vec![parent, fork];
    assert!(cancellable_native_child_run_ids(&runs, 1, 6, &Vec::new()).is_empty());
    assert_eq!(runs[0].status, RunStatus::Running);
}

#[test]
fn cancel_running_forked_run_does_not_cancel_parent() {
    let parent = record(1, RunStatus::Running, RunSource::User { output_contract: None, recipe_id: None });
    let fork = record(6, RunStatus::Running, RunSource::Forked { parent_run_id: 1, parent_event_seq: 3 });
    // A running fork owned by a live execution is cancelled through its handle.
    assert_eq!(
        plan_cancel(6, 1, Some((1, fork.status)), true, true).unwrap(),
        CancelPlan { cancel_live: true, reject_pending_approvals: true }
    );
    let runs = vec![parent, fork];
    assert!(cancellable_native_child_run_ids(&runs, 1, 6, &Vec::new()).is_empty());
    assert_eq!(runs[0].status, RunStatus::Running);
}

#[test]
fn fresh_spawn_cancellation_isolation_keeps_child_pending_when_parent_cancels() {
    let fresh = record(
        7,
        RunStatus::WaitingForApproval,
        RunSource::FreshSpawn {
            parent_run_id: 1,
            workspace_scope: WorkspaceMode::WorkspaceWrite,
            output_contract: None,
            recipe_id: None,
        },
    );
    let runs = vec![fresh];
    // Cancelling the parent cascades only to native subagents, never to a fresh spawn.
    assert!(cancellable_native_child_run_ids(&runs, 1, 1, &Vec::new()).is_empty());
    assert_eq!(runs[0].status, RunStatus::WaitingForApproval);
    assert!(matches!(runs[0].source, RunSource::FreshSpawn { .. }));
}

#[test]
fn resume_run_preserves_native_subagent_parent_linkage() {
    let child = record(
        8,
        RunStatus::Running,
        RunSource::NativeSubagent {
            parent_run_id: 1,
            parent_turn_id: 3,
            workspace_scope: WorkspaceMode::WorkspaceWrite,
            output_contract: None,
            recipe_id: None,
        },
    );
    assert_eq!(resume_state(child.id, child.status, child.harness, true, true).unwrap(), ResumeRunState::Live);
    assert_eq!(ta_orchestrator::run::lineage_parent_run_id(&child), Some(1));
}

#[test]
fn new_runs_start_queue_or_are_refused_by_their_session() {
    let mut scheduler = RunScheduler::new();
    let (status, events) =
        admit_new_run(&mut scheduler, 1, 10, RunSchedulingPolicy::QueueIfBusy, PolicyDecision::Allow, None, seed()).unwrap();
    assert_eq!(status, RunStatus::Running);
    assert!(matches!(&events[..], [TransitionEvent::RunActive { run_id: 10, status: RunStatus::Running, recipe_id: None }]));
    for i in 0..MAX_QUEUED_RUNS_PER_SESSION as u64 {
        let (status, events) = admit_new_run(
            &mut scheduler,
            1,
            11 + i,
            RunSchedulingPolicy::QueueIfBusy,
            PolicyDecision::Allow,
            Some("review".to_string()),
            seed(),
        )
        .unwrap();
        assert_eq!(status, RunStatus::Queued);
        assert!(matches!(&events[..], [TransitionEvent::RunActive { status: RunStatus::Queued, recipe_id: Some(r), .. }] if r == "review"));
    }
    assert!(matches!(
        admit_new_run(&mut scheduler, 1, 99, RunSchedulingPolicy::QueueIfBusy, PolicyDecision::Allow, None, seed()),
        Err(RunExecutionError::RunQueueFull(1))
    ));
    assert!(matches!(scheduler_error(RunSchedulerError::QueueFull(4)), RunExecutionError::RunQueueFull(4)));
    // A denied run in an idle session is admitted and fails at once.
    let (status, _) = admit_new_run(
        &mut scheduler,
        2,
        20,
        RunSchedulingPolicy::QueueIfBusy,
        PolicyDecision::Deny { reason: "denied".to_string() },
        None,
        seed(),
    )
    .unwrap();
    assert_eq!(status, RunStatus::Failed);
}

#[test]
fn live_failures_note_a_missing_checkpoint_and_mark_exhausted_routes() {
    let p = plan_live_failure("provider crashed".to_string(), None, false, true);
    assert_eq!(p.detail, "provider crashed; the after-turn Git checkpoint could not be captured");
    assert!(!p.keep_completion);
    assert_eq!(p.mark_auth_profile, None);

    let p = plan_live_failure("provider crashed".to_string(), None, true, true);
    assert_eq!(p.detail, "provider crashed");
    assert!(p.keep_completion);

    let detail = exhaustion_detail(AuthProfileExhaustion::CreditsExhausted);
    assert_eq!(detail, "The selected account has exhausted its credits.");
    let p = plan_live_failure(detail.to_string(), Some(AuthProfileExhaustion::CreditsExhausted), false, true);
    assert_eq!(p.detail, "The selected account has exhausted its credits.");
    assert_eq!(p.mark_auth_profile, Some(AuthProfileExhaustion::CreditsExhausted));
    let p = plan_live_failure(detail.to_string(), Some(AuthProfileExhaustion::CreditsExhausted), true, false);
    assert_eq!(p.mark_auth_profile, None);
    assert_eq!(exhaustion_detail(AuthProfileExhaustion::RateLimited), "The selected account is rate limited.");
}

#[test]
fn approval_events_must_name_the_live_run() {
    let live = user_run(2, RunStatus::Running);
    assert!(check_live_approval_event(1, 2, 2, Some(&live)).is_ok());
    assert!(matches!(check_live_approval_event(1, 2, 7, Some(&live)), Err(RunExecutionError::RunSessionMismatch(7))));
    assert!(matches!(
        check_live_approval_event(1, 2, 2, Some(&user_run(2, RunStatus::Queued))),
        Err(RunExecutionError::RunNotLiveOwned(2))
    ));
    assert!(matches!(check_live_approval_event(1, 2, 2, None), Err(RunExecutionError::RunNotFound(2))));
}

#[test]
fn deciding_an_expired_request_expires_it_then_reports_it_resolved() {
    assert_eq!(
        plan_approval_decision(9, 1, pending(3), true, Some(RunStatus::WaitingForApproval), true, false, ApprovalDecision::Approved)
            .unwrap(),
        ApprovalDecisionPlan::Expire
    );
    let d = plan_expired_decision(9, 3, 1, Some((1, RunStatus::WaitingForApproval)), false).unwrap();
    assert_eq!(d.expiration, ExpirationPlan { resolve_live: false, fail_run: true });
    assert!(matches!(d.answer, RunExecutionError::ApprovalAlreadyResolved(9)));
    let d = plan_expired_decision(9, 3, 1, Some((1, RunStatus::Running)), true).unwrap();
    assert_eq!(d.expiration, ExpirationPlan { resolve_live: true, fail_run: false });
    assert!(matches!(plan_expired_decision(9, 3, 1, None, false), Err(RunExecutionError::RunNotFound(3))));
}

#[test]
fn cancel_cascade_reaches_native_descendants_depth_first() {
    let runs = vec![
        record(1, RunStatus::Running, RunSource::User { output_contract: None, recipe_id: None }),
        record(9, RunStatus::Running, child(1)),
        record(3, RunStatus::Queued, child(1)),
        record(8, RunStatus::WaitingForApproval, child(3)),
        record(4, RunStatus::Completed, child(3)),
        record(2, RunStatus::Queued, child(8)),
        record(6, RunStatus::Running, RunSource::Forked { parent_run_id: 1, parent_event_seq: 3 }),
        record(5, RunStatus::Queued, child(6)),
    ];
    // The run, then each child's whole cascade in ascending child order.
    assert_eq!(plan_cancel_cascade(&runs, 1, 1).unwrap(), vec![1, 3, 8, 2, 9]);
    assert_eq!(plan_cancel_cascade(&runs, 1, 3).unwrap(), vec![3, 8, 2]);
    // Another session reaches nothing beyond the run itself.
    assert_eq!(plan_cancel_cascade(&runs, 2, 1).unwrap(), vec![1]);
}

#[test]
fn cancel_cascade_stops_past_its_bound() {
    let mut runs = vec![record(1, RunStatus::Running, RunSource::User { output_contract: None, recipe_id: None })];
    for id in 2..=(MAX_NATIVE_CHILD_CANCEL_CASCADE_RUNS as u64 + 1) {
        runs.push(record(id, RunStatus::Queued, child(id - 1)));
    }
    assert!(matches!(
        plan_cancel_cascade(&runs, 1, 1),
        Err(RunExecutionError::ProviderExecutionFailed(m)) if m == "native child cancel cascade exceeded 64 runs"
    ));
    runs.pop();
    assert_eq!(plan_cancel_cascade(&runs, 1, 1).unwrap().len(), MAX_NATIVE_CHILD_CANCEL_CASCADE_RUNS);
}

use ta_orchestrator::active_execution::{
    ActiveExecutionError, ActiveExecutionOwner, AttachHandleDisposition, LeaseStage,
};

#[test]
fn active_execution_owner_tracks_live_running_runs() {
    let mut owner = ActiveExecutionOwner::new();
    let run_id = 1;
    let session_id = 1;
    owner.claim_run(run_id, session_id);
    let live_execution = owner.execution_for(run_id).expect("run should have active execution");
    assert_eq!(live_execution.session_id, session_id);
    assert!(owner.is_running_owned_by(run_id, session_id));
    let generation = owner
        .execution_for(run_id)
        .filter(|live| live.session_id == session_id)
        .expect("claimed run has an execution")
        .generation;
    owner
        .with_terminal_generation_lease_and_take_handle(run_id, session_id, generation, || Ok::<(), ()>(()))
        .expect("terminal lease should release the exact generation");
    assert!(owner.execution_for(run_id).is_none());
}

#[test]
fn active_execution_owner_cancels_attached_handle_on_drop() {
    let mut owner = ActiveExecutionOwner::new();
    let run_id = 2;
    let session_id = 2;
    let generation = owner.claim_run(run_id, session_id);
    owner.attach_handle(run_id, generation, 77).expect("attach handle");
    let to_cancel = owner.live_handles();
    assert_eq!(to_cancel, vec![77]);
    assert_eq!(to_cancel.len(), 1);
}

#[test]
fn active_execution_owner_rejects_attach_without_claimed_slot() {
    let mut owner = ActiveExecutionOwner::new();
    let error = owner.attach_handle(99, 1, 5).expect_err("missing slot must fail");
    assert_eq!(error, ActiveExecutionError::Missing { run_id: 99, stage: LeaseStage::AttachingHandle });
}

#[test]
fn active_execution_owner_marks_cancel_requested_before_activation() {
    let mut owner = ActiveExecutionOwner::new();
    let run_id = 3;
    let session_id = 3;
    let generation = owner.claim_run(run_id, session_id);
    let disposition = owner.attach_handle(run_id, generation, 8).expect("attach handle");
    assert_eq!(disposition, AttachHandleDisposition::Attached);
}

#[test]
fn active_execution_generation_retires_old_callbacks_before_replacement() {
    let mut owner = ActiveExecutionOwner::new();
    let run_id = 4;
    let session_id = 4;
    let old = owner.claim_run(run_id, session_id);
    let (result, _generation, _old_handle) = owner
        .replace_run_with_generation_lease(run_id, session_id, |generation| Ok::<_, ()>(generation))
        .expect("replace");
    let next = result.expect("replacement action should succeed");
    assert!(next > old);
    assert!(!owner.is_current_generation(run_id, session_id, old));
    assert!(owner.is_current_generation(run_id, session_id, next));
}

#[test]
fn active_execution_owner_preserves_current_generation_and_handle_when_replacement_action_fails() {
    let mut owner = ActiveExecutionOwner::new();
    let run_id = 5;
    let session_id = 5;
    let old_generation = owner.claim_run(run_id, session_id);
    owner.attach_handle(run_id, old_generation, 500).expect("attach old handle");
    let (result, replacement_generation, returned_handle) = owner
        .replace_run_with_generation_lease(run_id, session_id, |_| {
            Err::<(), _>("durable replacement action failed")
        })
        .expect("existing owner should lease replacement");
    assert_eq!(result, Err("durable replacement action failed"));
    assert!(replacement_generation > old_generation);
    assert!(returned_handle.is_none());
    assert!(owner.is_current_generation(run_id, session_id, old_generation));
    assert_eq!(owner.handle_for(run_id, session_id), Some(500));
    assert_eq!(owner.approval_handle(run_id, session_id), Ok(500));
}

#[test]
fn cancel_run_rejects_running_run_without_live_active_owner() {
    let owner = ActiveExecutionOwner::new();
    assert!(!owner.is_running_owned_by(6, 6));
    let plan = ta_orchestrator::transitions::plan_cancel(
        6,
        6,
        Some((6, ta_orchestrator::run::RunStatus::Running)),
        owner.is_running_owned_by(6, 6),
        true,
    );
    assert!(matches!(plan, Err(ta_orchestrator::errors::RunExecutionError::RunNotCancellable(6))));
}

#[test]
fn successful_replacement_hands_back_the_old_handle() {
    let mut owner = ActiveExecutionOwner::new();
    let g = owner.claim_run(7, 1);
    owner.attach_handle(7, g, 70).unwrap();
    let (result, next, old_handle) =
        owner.replace_run_with_generation_lease(7, 1, |n| Ok::<u64, ()>(n)).unwrap();
    assert_eq!(result, Ok(next));
    assert_eq!(old_handle, Some(70));
    assert_eq!(owner.handle_for(7, 1), None);
    assert_eq!(owner.current_generation(7, 1), Some(next));
}

#[test]
fn stale_generation_cannot_lease_or_retire() {
    let mut owner = ActiveExecutionOwner::new();
    let old = owner.claim_run(8, 1);
    let (_, next, _) = owner.replace_run_with_generation_lease(8, 1, |n| Ok::<u64, ()>(n)).unwrap();
    assert_eq!(
        owner.with_generation_lease(8, 1, old, || Ok::<(), ()>(())),
        Err(ActiveExecutionError::StaleGeneration { run_id: 8, stage: LeaseStage::Leasing })
    );
    assert!(owner.with_terminal_generation_lease_and_take_handle(8, 1, old, || Ok::<(), ()>(())).is_err());
    assert!(owner.execution_for(8).is_some());
    assert!(owner.with_terminal_generation_lease_and_take_handle(8, 1, next, || Ok::<(), ()>(())).is_ok());
    assert!(owner.execution_for(8).is_none());
}

#[test]
fn other_sessions_do_not_own_a_run() {
    let mut owner = ActiveExecutionOwner::new();
    owner.claim_run(9, 1);
    assert!(!owner.is_running_owned_by(9, 2));
    assert_eq!(
        owner.approval_handle(9, 2),
        Err(ActiveExecutionError::NotOwnedBySession { run_id: 9, session_id: 2 })
    );
    assert_eq!(owner.approval_handle(9, 1), Err(ActiveExecutionError::HandleMissing { run_id: 9 }));
    assert!(owner.release_run(9));
    assert!(!owner.release_run(9));
    assert_eq!(owner.active_count(), 0);
}

#[test]
fn voice_runs_keep_their_voice_handle() {
    let mut owner = ActiveExecutionOwner::new();
    let g = owner.claim_run(10, 1);
    assert!(!owner.is_voice_run(10));
    owner.attach_voice_handle(10, g, 11, 12).unwrap();
    assert!(owner.is_voice_run(10));
    assert_eq!(owner.voice_for(10), Some(12));
    assert_eq!(owner.handle_for(10, 1), Some(11));
}

#[test]
fn live_handles_list_each_attached_handle_once_in_run_order() {
    let mut owner = ActiveExecutionOwner::new();
    let g5 = owner.claim_run(5, 1);
    let g3 = owner.claim_run(3, 1);
    let _g4 = owner.claim_run(4, 1);
    owner.attach_handle(5, g5, 50).expect("attach run 5");
    owner.attach_handle(3, g3, 30).expect("attach run 3");
    assert_eq!(owner.live_handles(), vec![30, 50]);
    assert!(owner.release_run(3));
    assert_eq!(owner.live_handles(), vec![50]);
}

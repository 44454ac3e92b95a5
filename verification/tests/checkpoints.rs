use ta_orchestrator::checkpoints::{
    after_turn_checkpoint_due, checkpoint_id, checkpoint_revision, missing_repository_outcome,
    plan_user_turn_checkpoint, GitCheckpointPhase,
};
use ta_orchestrator::errors::RunExecutionError;
use ta_orchestrator::run::{RunHarnessKind, RunRecord, RunSource, RunStatus};

fn run(id: u64, source: RunSource) -> RunRecord {
    RunRecord {
        id,
        session_id: 1,
        status: RunStatus::Running,
        harness: RunHarnessKind::Native,
        source,
        started_at_ms: None,
        ended_at_ms: None,
        last_event_seq: None,
    }
}

fn user_run(id: u64) -> RunRecord {
    run(id, RunSource::User { output_contract: None, recipe_id: None })
}

#[test]
fn checkpoint_names_carry_run_and_phase() {
    assert_eq!(checkpoint_id(42, GitCheckpointPhase::BeforeTurn), "checkpoint-42-before");
    assert_eq!(checkpoint_id(7, GitCheckpointPhase::AfterTurn), "checkpoint-7-after");
    assert_eq!(checkpoint_revision(GitCheckpointPhase::BeforeTurn), 0);
    assert_eq!(checkpoint_revision(GitCheckpointPhase::AfterTurn), 1);
}

#[test]
fn user_turn_checkpoints_are_taken_once_per_revision() {
    let r = user_run(42);
    assert_eq!(
        plan_user_turn_checkpoint(&r, GitCheckpointPhase::BeforeTurn, &vec![]),
        Some(("checkpoint-42-before".to_string(), 0))
    );
    assert_eq!(plan_user_turn_checkpoint(&r, GitCheckpointPhase::BeforeTurn, &vec![0]), None);
    assert_eq!(
        plan_user_turn_checkpoint(&r, GitCheckpointPhase::AfterTurn, &vec![0]),
        Some(("checkpoint-42-after".to_string(), 1))
    );
    assert_eq!(plan_user_turn_checkpoint(&r, GitCheckpointPhase::AfterTurn, &vec![0, 1]), None);
}

#[test]
fn only_user_runs_are_checkpointed() {
    let scheduled = run(5, RunSource::ScheduledWork { scheduled_work_id: 1, occurrence_id: 2 });
    assert_eq!(plan_user_turn_checkpoint(&scheduled, GitCheckpointPhase::BeforeTurn, &vec![]), None);
    let forked = run(6, RunSource::Forked { parent_run_id: 1, parent_event_seq: 3 });
    assert_eq!(plan_user_turn_checkpoint(&forked, GitCheckpointPhase::AfterTurn, &vec![]), None);
}

#[test]
fn turn_end_is_checkpointed_only_after_its_start() {
    assert!(!after_turn_checkpoint_due(&vec![]));
    assert!(!after_turn_checkpoint_due(&vec![GitCheckpointPhase::AfterTurn]));
    assert!(after_turn_checkpoint_due(&vec![GitCheckpointPhase::AfterTurn, GitCheckpointPhase::BeforeTurn]));
}

#[test]
fn missing_repository_skips_the_start_and_fails_the_end() {
    assert!(missing_repository_outcome(GitCheckpointPhase::BeforeTurn).is_ok());
    match missing_repository_outcome(GitCheckpointPhase::AfterTurn) {
        Err(RunExecutionError::CheckpointFailed(detail)) => {
            assert_eq!(detail, "the workspace is no longer a Git repository")
        }
        other => panic!("unexpected outcome {other:?}"),
    }
}

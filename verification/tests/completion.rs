use ta_orchestrator::artifacts::ReceiptKind;
use ta_orchestrator::completion::{
    completion_event_sequence, completion_label, completion_receipt, completion_receipt_summary, plan_current_completion,
    plan_leased_completion, projected_result, receipt_kind_for_contract, validate_completion_payload, CompletionReceiptState,
};
use ta_orchestrator::events::{EventPayload, EventRecord};
use ta_orchestrator::run::{OutputContractKind, RunHarnessKind, RunRecord, RunSource, RunStatus, WorkspaceMode};

fn run_with(source: RunSource) -> RunRecord {
    RunRecord {
        id: 42,
        session_id: 1,
        status: RunStatus::Running,
        harness: RunHarnessKind::Native,
        source,
        started_at_ms: None,
        ended_at_ms: None,
        last_event_seq: None,
    }
}

#[test]
fn missing_contract_result_fails_with_structured_error_and_quarantines() {
    let validation = validate_completion_payload(Some(OutputContractKind::Patch), None);
    assert_eq!(validation, Err("output contract Patch requires a matching CapsuleResult".to_string()));
    let plan = plan_current_completion(validation, true, "done".to_string());
    assert_eq!(plan.status, RunStatus::Failed);
    assert_eq!(plan.reason, "output contract Patch requires a matching CapsuleResult");
    assert_eq!(plan.receipt_state, Some(CompletionReceiptState::Quarantined));
    assert_eq!(plan.violation_error.as_deref(), Some("output contract Patch requires a matching CapsuleResult"));
    assert!(plan.keep_result);
}

#[test]
fn complete_with_invalid_capsule_result_fails_and_quarantines() {
    let validation = validate_completion_payload(Some(OutputContractKind::Review), Some(Err("findings missing".to_string())));
    assert_eq!(validation, Err("findings missing".to_string()));
    let plan = plan_leased_completion(validation, true, "done".to_string());
    assert_eq!(plan.status, RunStatus::Failed);
    assert_eq!(plan.contract_violation.as_deref(), Some("findings missing"));
    assert_eq!(plan.receipt_state, Some(CompletionReceiptState::Quarantined));
}

#[test]
fn complete_with_valid_capsule_result_promotes_parent_receipt() {
    let validation = validate_completion_payload(Some(OutputContractKind::Patch), Some(Ok(())));
    assert_eq!(validation, Ok(()));
    let plan = plan_current_completion(validation, true, "all good".to_string());
    assert_eq!(plan.status, RunStatus::Completed);
    assert_eq!(plan.reason, "all good");
    assert_eq!(plan.receipt_state, Some(CompletionReceiptState::Promoted));
    let child = run_with(RunSource::NativeSubagent {
        parent_run_id: 7,
        parent_turn_id: 3,
        workspace_scope: WorkspaceMode::WorktreeWrite,
        output_contract: Some(OutputContractKind::Patch),
        recipe_id: None,
    });
    let receipt = completion_receipt(
        &child,
        12,
        Some(OutputContractKind::Patch),
        Some(OutputContractKind::Patch),
        CompletionReceiptState::Promoted,
    )
    .expect("receipt");
    assert_eq!(receipt.kind, ReceiptKind::Patch);
    assert_eq!(receipt.parent_run_id, Some(7));
    assert_eq!(receipt.agent_turn_id, Some(3));
    assert_eq!(receipt.event_seq, Some(12));
    assert_eq!(receipt.stream_cursor, "run:42:event:12");
    assert_eq!(receipt.title, "Patch result");
    assert_eq!(receipt.summary, "Patch CapsuleResult returned from native run");
}

#[test]
fn legacy_completion_without_contract_still_completes() {
    let validation = validate_completion_payload(None, None);
    assert_eq!(validation, Ok(()));
    let plan = plan_leased_completion(validation, true, "legacy".to_string());
    assert_eq!(plan.status, RunStatus::Completed);
    let user = run_with(RunSource::User { output_contract: None, recipe_id: None });
    assert!(completion_receipt(&user, 3, None, None, CompletionReceiptState::Promoted).is_none());
}

#[test]
fn missing_after_turn_checkpoint_fails_and_releases_user_run() {
    let plan = plan_current_completion(Ok(()), false, "done".to_string());
    assert_eq!(plan.status, RunStatus::Failed);
    assert_eq!(plan.reason, "Run failed because the after-turn Git checkpoint could not be captured");
    assert!(!plan.keep_result);
    assert!(plan.checkpoint_error);
    assert_eq!(plan.receipt_state, Some(CompletionReceiptState::Quarantined));
    let leased = plan_leased_completion(Ok(()), false, "done".to_string());
    assert_eq!(leased.status, RunStatus::Failed);
    assert_eq!(leased.receipt_state, None);
    assert!(!leased.checkpoint_error);
}

#[test]
fn completion_labels_and_receipt_kinds() {
    assert_eq!(completion_label(OutputContractKind::Debug), "Debug");
    assert_eq!(completion_label(OutputContractKind::Custom), "Custom");
    assert_eq!(receipt_kind_for_contract(OutputContractKind::Debug), ReceiptKind::Summary);
    assert_eq!(receipt_kind_for_contract(OutputContractKind::Review), ReceiptKind::ReviewFinding);
    assert_eq!(receipt_kind_for_contract(OutputContractKind::Test), ReceiptKind::TestOutput);
    assert_eq!(receipt_kind_for_contract(OutputContractKind::Plan), ReceiptKind::Summary);
    assert_eq!(receipt_kind_for_contract(OutputContractKind::Custom), ReceiptKind::Artifact);
}

#[test]
fn receipt_summaries_name_the_result() {
    assert_eq!(
        completion_receipt_summary("Plan", Some(OutputContractKind::Test), CompletionReceiptState::Quarantined),
        "Test CapsuleResult quarantined after daemon validation"
    );
    assert_eq!(
        completion_receipt_summary("Plan", None, CompletionReceiptState::Quarantined),
        "Plan CapsuleResult missing from native run"
    );
    assert_eq!(completion_receipt_summary("Plan", None, CompletionReceiptState::Promoted), "Plan completion result");
}

#[test]
fn the_first_completing_event_is_found() {
    let records = vec![
        EventRecord { sequence: 3, payload: EventPayload::Run { run_id: 1, status: RunStatus::Running } },
        EventRecord { sequence: 4, payload: EventPayload::Other },
        EventRecord { sequence: 5, payload: EventPayload::Run { run_id: 1, status: RunStatus::Failed } },
        EventRecord { sequence: 6, payload: EventPayload::Run { run_id: 1, status: RunStatus::Completed } },
    ];
    assert_eq!(completion_event_sequence(&records), Some(5));
    assert_eq!(completion_event_sequence(&records[..2].to_vec()), None);
}

#[test]
fn violations_drop_the_stored_result() {
    assert_eq!(projected_result(&None, Some(5)), Some(5));
    assert_eq!(projected_result(&Some("bad".to_string()), Some(5)), None);
}

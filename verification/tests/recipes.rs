use ta_orchestrator::errors::RunExecutionError;
use ta_orchestrator::recipes::{check_native_child_start, find_recipe, resolve_delegation, DelegateRecipe};
use ta_orchestrator::run::{OutputContractKind, RunHarnessKind, RunRecord, RunSource, RunStatus};

fn recipes() -> Vec<DelegateRecipe> {
    vec![
        DelegateRecipe {
            recipe_id: "debug-agent".to_string(),
            output_contract: OutputContractKind::Debug,
            default_model_id: Some("recipe-model".to_string()),
        },
        DelegateRecipe { recipe_id: "review-agent".to_string(), output_contract: OutputContractKind::Review, default_model_id: None },
    ]
}

fn parent(status: RunStatus, harness: RunHarnessKind, session_id: u64) -> RunRecord {
    RunRecord {
        id: 1,
        session_id,
        status,
        harness,
        source: RunSource::User { output_contract: None, recipe_id: None },
        started_at_ms: None,
        ended_at_ms: None,
        last_event_seq: None,
    }
}

#[test]
fn recipe_delegate_unknown_recipe_returns_typed_error_before_child_start() {
    let r = check_native_child_start(1, &recipes(), Some("bogus-recipe".to_string()), "Do it", None, None, 1, None, false);
    assert!(matches!(r, Err(RunExecutionError::UnknownRecipeId(id)) if id == "bogus-recipe"));
}

#[test]
fn recipe_delegate_conflicting_contract_returns_typed_error_before_child_start() {
    let r = check_native_child_start(
        1,
        &recipes(),
        Some("debug-agent".to_string()),
        "Do it",
        Some(OutputContractKind::Patch),
        None,
        1,
        None,
        false,
    );
    assert!(matches!(
        r,
        Err(RunExecutionError::RecipeContractConflict {
            recipe_id,
            recipe_contract: OutputContractKind::Debug,
            request_contract: OutputContractKind::Patch,
        }) if recipe_id == "debug-agent"
    ));
}

#[test]
fn recipe_delegate_applies_default_model_and_allows_model_override() {
    let d = resolve_delegation(&recipes(), Some("debug-agent".to_string()), "  Find the bug ", None, None).unwrap();
    assert_eq!(d.objective, "Find the bug");
    assert_eq!(d.output_contract, Some(OutputContractKind::Debug));
    assert_eq!(d.model_id.as_deref(), Some("recipe-model"));
    assert_eq!(d.recipe_id.as_deref(), Some("debug-agent"));
    let d = resolve_delegation(
        &recipes(),
        Some("debug-agent".to_string()),
        "Find the bug",
        Some(OutputContractKind::Debug),
        Some("override".to_string()),
    )
    .unwrap();
    assert_eq!(d.model_id.as_deref(), Some("override"));
}

#[test]
fn delegate_without_recipe_id_preserves_legacy_flow() {
    let d = resolve_delegation(&recipes(), None, "Legacy child objective", None, Some("legacy-model".to_string())).unwrap();
    assert_eq!(d.objective, "Legacy child objective");
    assert_eq!(d.output_contract, None);
    assert_eq!(d.model_id.as_deref(), Some("legacy-model"));
    assert_eq!(d.recipe_id, None);
    // Without a contract, a plain completion completes the child.
    assert!(ta_orchestrator::completion::validate_completion_payload(None, None).is_ok());
}

#[test]
fn native_child_checks_run_recipe_then_objective_then_parent() {
    let running = parent(RunStatus::Running, RunHarnessKind::Native, 1);
    assert!(matches!(
        check_native_child_start(1, &recipes(), None, "   ", None, None, 1, None, true),
        Err(RunExecutionError::EmptyRunObjective)
    ));
    assert!(matches!(
        check_native_child_start(1, &recipes(), None, "Work", None, None, 4, None, true),
        Err(RunExecutionError::RunNotFound(4))
    ));
    let foreign = parent(RunStatus::Running, RunHarnessKind::Native, 2);
    assert!(matches!(
        check_native_child_start(1, &recipes(), None, "Work", None, None, 1, Some(&foreign), true),
        Err(RunExecutionError::RunSessionMismatch(1))
    ));
    assert!(matches!(
        check_native_child_start(1, &recipes(), None, "Work", None, None, 1, Some(&running), false),
        Err(RunExecutionError::RunNotLiveOwned(1))
    ));
    let acp = parent(RunStatus::Running, RunHarnessKind::Acp, 1);
    assert!(matches!(
        check_native_child_start(1, &recipes(), None, "Work", None, None, 1, Some(&acp), true),
        Err(RunExecutionError::RunNotNativeHarness(1))
    ));
    let ok = check_native_child_start(1, &recipes(), Some("review-agent".to_string()), "Work", None, None, 1, Some(&running), true)
        .unwrap();
    assert_eq!(ok.output_contract, Some(OutputContractKind::Review));
    assert_eq!(find_recipe(&recipes(), &"review-agent".to_string()), Some(1));
    assert_eq!(find_recipe(&recipes(), &"none".to_string()), None);
}

use ta_orchestrator::claims::{conflict_summary_for_warning, ClaimRegistry};
use ta_orchestrator::workspace::{claim_dispatch_files, finish_workspace_run, WorkspaceRunRegistry};
use ta_orchestrator::run::RunStatus;

#[test]
fn execution_context_preparation_emits_conflict_warning_for_overlapping_claims() {
    let mut claims = ClaimRegistry::new();
    let mut runs = WorkspaceRunRegistry::new();
    let first_run_id: u64 = 1;
    let second_run_id: u64 = 2;
    let (first_files, first_warning) = claim_dispatch_files(
        &mut claims,
        &mut runs,
        first_run_id,
        Some(10),
        vec!["src/lib.rs".to_string()],
        false,
    );
    assert_eq!(first_files, vec!["src/lib.rs".to_string()]);
    assert!(first_warning.is_none());
    let (second_files, second_warning) = claim_dispatch_files(
        &mut claims,
        &mut runs,
        second_run_id,
        Some(11),
        vec!["src/lib.rs".to_string()],
        false,
    );
    assert_eq!(second_files, vec!["src/lib.rs".to_string()]);
    let warning = second_warning.expect("overlapping claim should warn");
    let summary = conflict_summary_for_warning(&warning);
    assert_eq!(summary.warning_count, 1);
    assert_eq!(warning.requesting_capsule, second_run_id);
    assert_eq!(warning.conflicts[0].holding_capsule, first_run_id);
}

#[test]
fn claim_without_overlap_raises_no_warning() {
    let mut claims = ClaimRegistry::new();
    let (_, w1) = claims.claim(1, vec!["a.rs".to_string()]);
    let (_, w2) = claims.claim(2, vec!["b.rs".to_string()]);
    assert!(w1.is_none());
    assert!(w2.is_none());
    assert_eq!(claims.active_claims(), 2);
}

#[test]
fn a_run_never_conflicts_with_its_own_claim() {
    let mut claims = ClaimRegistry::new();
    let (_, _) = claims.claim(7, vec!["a.rs".to_string()]);
    let (_, w) = claims.claim(7, vec!["a.rs".to_string()]);
    assert!(w.is_none());
}

#[test]
fn released_claims_no_longer_conflict() {
    let mut claims = ClaimRegistry::new();
    let (_, _) = claims.claim(1, vec!["a.rs".to_string(), "b.rs".to_string()]);
    claims.release(1);
    assert_eq!(claims.active_claims(), 0);
    let (_, w) = claims.claim(2, vec!["a.rs".to_string()]);
    assert!(w.is_none());
}

#[test]
fn conflicts_follow_requested_files_then_holders_oldest_first() {
    let mut claims = ClaimRegistry::new();
    let (_, _) = claims.claim(1, vec!["b.rs".to_string(), "a.rs".to_string()]);
    let (_, _) = claims.claim(2, vec!["a.rs".to_string()]);
    let (_, w) = claims.claim(3, vec!["a.rs".to_string(), "b.rs".to_string()]);
    let w = w.expect("conflicts");
    let got: Vec<(String, u64)> = w.conflicts.iter().map(|c| (c.file.clone(), c.holding_capsule)).collect();
    assert_eq!(
        got,
        vec![("a.rs".to_string(), 1), ("a.rs".to_string(), 2), ("b.rs".to_string(), 1)]
    );
    let summary = conflict_summary_for_warning(&w);
    assert_eq!(summary.warning_count, 3);
    assert_eq!(summary.files, vec!["a.rs".to_string(), "b.rs".to_string()]);
}

#[test]
fn conflict_summary_sorts_like_string_order() {
    let mut claims = ClaimRegistry::new();
    let files = vec!["z".to_string(), "ab".to_string(), "a".to_string(), "B".to_string()];
    let (_, _) = claims.claim(1, files.clone());
    let (_, w) = claims.claim(2, files);
    let summary = conflict_summary_for_warning(&w.expect("conflicts"));
    let mut expected = vec!["z".to_string(), "ab".to_string(), "a".to_string(), "B".to_string()];
    expected.sort();
    assert_eq!(summary.files, expected);
}

#[test]
fn dispatch_without_planned_files_claims_nothing() {
    let mut claims = ClaimRegistry::new();
    let mut runs = WorkspaceRunRegistry::new();
    let (files, warning) = claim_dispatch_files(&mut claims, &mut runs, 5, None, Vec::new(), false);
    assert!(files.is_empty());
    assert!(warning.is_none());
    assert_eq!(claims.active_claims(), 0);
    assert_eq!(runs.active_count(), 0);
}

#[test]
fn finishing_a_run_releases_its_claim_and_marks_its_worktree() {
    let mut claims = ClaimRegistry::new();
    let mut runs = WorkspaceRunRegistry::new();
    let _ = claim_dispatch_files(&mut claims, &mut runs, 5, Some(42), vec!["x.rs".to_string()], false);
    assert_eq!(runs.active_count(), 1);
    let worktree = finish_workspace_run(&mut claims, &mut runs, 5, RunStatus::Completed);
    assert_eq!(worktree, Some((42, ta_orchestrator::workspace::WorktreeOutcome::Success)));
    assert_eq!(claims.active_claims(), 0);
    assert_eq!(runs.active_count(), 0);
    assert_eq!(finish_workspace_run(&mut claims, &mut runs, 5, RunStatus::Completed), None);
}

#[test]
fn dispatch_paths_use_forward_slashes_in_protocol_form() {
    let mut claims = ClaimRegistry::new();
    let mut runs = WorkspaceRunRegistry::new();
    let _ = claim_dispatch_files(&mut claims, &mut runs, 1, None, vec!["src\\lib.rs".to_string()], true);
    let (files, warning) =
        claim_dispatch_files(&mut claims, &mut runs, 2, None, vec!["src\\lib.rs".to_string()], true);
    assert_eq!(files, vec!["src/lib.rs".to_string()]);
    assert_eq!(warning.expect("conflict").conflicts[0].file, "src/lib.rs");
}

use ta_orchestrator::fork::AgentTurnRow;
use ta_orchestrator::turn_rows::{absorb_turn_rows_page, row_key, sort_turn_rows};

fn assistant(run_id: u64, sequence: u64, text: &str) -> AgentTurnRow {
    AgentTurnRow::Assistant { run_id, sequence, turn_id: 1, text: text.to_string() }
}

fn keys(rows: &[AgentTurnRow]) -> Vec<(u64, u64)> {
    rows.iter().map(row_key).collect()
}

#[test]
fn replay_keeps_only_the_parents_rows_up_to_the_fork_point() {
    let mut rows = Vec::new();
    absorb_turn_rows_page(
        &mut rows,
        vec![assistant(1, 9, "late"), assistant(2, 3, "other run"), assistant(1, 5, "kept"), assistant(1, 7, "edge")],
        1,
        7,
    );
    assert_eq!(keys(&rows), vec![(1, 5), (1, 7)]);
    absorb_turn_rows_page(&mut rows, vec![assistant(1, 2, "earlier page"), AgentTurnRow::PendingState { run_id: 1, sequence: 1, turn_id: 1 }], 1, 7);
    assert_eq!(keys(&rows), vec![(1, 5), (1, 7), (1, 2), (1, 1)]);
    absorb_turn_rows_page(&mut rows, Vec::new(), 1, 7);
    assert_eq!(rows.len(), 4);
}

#[test]
fn replayed_rows_are_put_in_sequence_order() {
    let sorted = sort_turn_rows(vec![assistant(1, 5, "c"), assistant(1, 1, "a"), assistant(1, 3, "b"), assistant(1, 3, "b2")]);
    assert_eq!(keys(&sorted), vec![(1, 1), (1, 3), (1, 3), (1, 5)]);
    match (&sorted[1], &sorted[2]) {
        (AgentTurnRow::Assistant { text: first, .. }, AgentTurnRow::Assistant { text: second, .. }) => {
            assert_eq!(first, "b");
            assert_eq!(second, "b2");
        },
        other => panic!("unexpected rows {:?}", other),
    }
    assert!(sort_turn_rows(Vec::new()).is_empty());
}

use ta_orchestrator::errors::{fork_error, RunExecutionError};
use ta_orchestrator::events::{EventPayload, EventRecord, StreamEmission, StreamFrame};
use ta_orchestrator::fork::{check_fork_point, turn_rows_to_messages, validate_fork_boundary, AgentTurnRow, ForkError, StreamMessage};
use ta_orchestrator::run::{RunHarnessKind, RunRecord, RunSource, RunStatus};

fn parent(harness: RunHarnessKind, last: Option<u64>) -> RunRecord {
    RunRecord {
        id: 1,
        session_id: 1,
        status: RunStatus::Running,
        harness,
        source: RunSource::User { output_contract: None, recipe_id: None },
        started_at_ms: None,
        ended_at_ms: None,
        last_event_seq: last,
    }
}

fn frame(seq: u64, turn: u64, item: Option<u64>, frame: StreamFrame) -> EventRecord {
    EventRecord {
        sequence: seq,
        payload: EventPayload::AgentStream {
            run_id: 1,
            emission: StreamEmission { turn_id: Some(turn), item_id: item, frame },
        },
    }
}

#[test]
fn fork_run_rejects_invalid_parent_event_seq() {
    let p = parent(RunHarnessKind::Native, Some(5));
    assert_eq!(check_fork_point(&p, 6), Err(ForkError::ForkPointNotFound { run_id: 1, boundary: 6 }));
    assert_eq!(check_fork_point(&p, 0), Err(ForkError::ForkPointNotFound { run_id: 1, boundary: 0 }));
    assert!(matches!(
        fork_error(check_fork_point(&p, 6).unwrap_err()),
        RunExecutionError::RunForkPointNotFound { run_id: 1, boundary: 6 }
    ));
    assert_eq!(check_fork_point(&p, 5), Ok(()));
}

#[test]
fn fork_run_rejects_external_parent_harness() {
    let p = parent(RunHarnessKind::Acp, Some(5));
    assert_eq!(check_fork_point(&p, 1), Err(ForkError::RunNotNativeHarness(1)));
    assert!(matches!(fork_error(ForkError::RunNotNativeHarness(1)), RunExecutionError::RunNotNativeHarness(1)));
}

#[test]
fn fork_run_rejects_non_run_event_fork_point() {
    let events = vec![frame(1, 1, None, StreamFrame::AssistantTurnStarted), frame(2, 1, None, StreamFrame::AssistantTurnCompleted)];
    assert_eq!(
        validate_fork_boundary(1, 7, &events, None),
        Err(ForkError::ForkPointNotFound { run_id: 1, boundary: 7 })
    );
}

#[test]
fn fork_run_rejects_mid_turn_tool_boundary() {
    let events = vec![
        frame(1, 1, None, StreamFrame::AssistantTurnStarted),
        frame(2, 1, None, StreamFrame::AssistantTurnCompleted),
        frame(3, 1, Some(10), StreamFrame::ToolCallStarted),
    ];
    let error = validate_fork_boundary(1, 3, &events, None).unwrap_err();
    assert_eq!(error, ForkError::NotTurnBoundary { run_id: 1, boundary: 3 });
    assert!(matches!(fork_error(error), RunExecutionError::RunForkPointNotTurnBoundary(_)));
}

#[test]
fn fork_points_followed_by_same_turn_tools_are_mid_turn() {
    let events = vec![frame(1, 1, None, StreamFrame::AssistantTurnStarted), frame(2, 1, None, StreamFrame::AssistantTurnCompleted)];
    let next = frame(3, 1, Some(10), StreamFrame::ToolCallStarted);
    assert_eq!(validate_fork_boundary(1, 2, &events, Some(next)), Err(ForkError::NotTurnBoundary { run_id: 1, boundary: 2 }));
    let other = frame(3, 2, None, StreamFrame::AssistantTurnStarted);
    assert_eq!(validate_fork_boundary(1, 2, &events, Some(other)), Ok(()));
}

#[test]
fn fork_run_replays_completed_parent_to_last_event() {
    let events = vec![
        frame(1, 1, None, StreamFrame::AssistantTurnStarted),
        frame(2, 1, Some(10), StreamFrame::ToolCallStarted),
        frame(3, 1, Some(10), StreamFrame::ToolCallCompleted),
        frame(4, 1, None, StreamFrame::AssistantTurnCompleted),
    ];
    assert_eq!(validate_fork_boundary(1, 4, &events, None), Ok(()));
}

#[test]
fn fork_run_replays_parent_state_through_turn_boundary() {
    let rows = vec![
        AgentTurnRow::Assistant { run_id: 1, sequence: 1, turn_id: 1, text: "checking".to_string() },
        AgentTurnRow::ToolCall {
            run_id: 1,
            sequence: 2,
            turn_id: 1,
            item_id: Some(10),
            tool_name: "shell".to_string(),
            input: r#"{"cmd":"echo hi"}"#.to_string(),
            output: "hi".to_string(),
        },
        AgentTurnRow::Assistant { run_id: 1, sequence: 3, turn_id: 2, text: "done".to_string() },
    ];
    let messages = turn_rows_to_messages("Parent objective".to_string(), &rows).expect("replay");
    assert_eq!(messages.len(), 4);
    assert!(matches!(&messages[0], StreamMessage::User { text } if text == "Parent objective"));
    match &messages[1] {
        StreamMessage::Assistant { text, tool_calls } => {
            assert_eq!(text, "checking");
            assert_eq!(tool_calls.len(), 1);
            assert_eq!(tool_calls[0].id, 10);
            assert_eq!(tool_calls[0].name, "shell");
            assert_eq!(tool_calls[0].input["cmd"], "echo hi");
        },
        other => panic!("unexpected {:?}", other),
    }
    assert!(matches!(&messages[2], StreamMessage::Tool { tool_call_id: 10, output } if output == "hi"));
    assert!(matches!(&messages[3], StreamMessage::Assistant { text, tool_calls } if text == "done" && tool_calls.is_empty()));
}

#[test]
fn replay_refuses_malformed_tool_rows() {
    let orphan = vec![AgentTurnRow::ToolCall {
        run_id: 1,
        sequence: 1,
        turn_id: 1,
        item_id: Some(3),
        tool_name: "shell".to_string(),
        input: "{}".to_string(),
        output: String::new(),
    }];
    assert!(matches!(turn_rows_to_messages("o".to_string(), &orphan), Err(ForkError::ToolRowWithoutAssistant)));
    let bad_json = vec![
        AgentTurnRow::Assistant { run_id: 1, sequence: 1, turn_id: 1, text: String::new() },
        AgentTurnRow::ToolCall {
            run_id: 1,
            sequence: 2,
            turn_id: 1,
            item_id: Some(4),
            tool_name: "shell".to_string(),
            input: "{not json".to_string(),
            output: String::new(),
        },
    ];
    assert!(matches!(turn_rows_to_messages("o".to_string(), &bad_json), Err(ForkError::InvalidToolInput { item_id: 4 })));
    let no_id = vec![
        AgentTurnRow::Assistant { run_id: 1, sequence: 1, turn_id: 1, text: String::new() },
        AgentTurnRow::ToolCall {
            run_id: 1,
            sequence: 2,
            turn_id: 1,
            item_id: None,
            tool_name: "shell".to_string(),
            input: "{}".to_string(),
            output: String::new(),
        },
    ];
    assert!(matches!(turn_rows_to_messages("o".to_string(), &no_id), Err(ForkError::ToolRowWithoutItemId)));
}

use ta_orchestrator::fork::{
    absorb_replay_page, check_fork_replay_parent, next_replay_page_limit, ForkReplayError, ReplayStep,
    FORK_REPLAY_BATCH_LIMIT, FORK_REPLAY_TOTAL_LIMIT,
};

#[test]
fn replay_pages_stop_at_the_fork_point() {
    let mut events = Vec::new();
    let page = vec![frame(1, 1, None, StreamFrame::AssistantTurnStarted), frame(2, 1, None, StreamFrame::AssistantTurnCompleted)];
    assert_eq!(absorb_replay_page(&mut events, &page, 3), ReplayStep::Continue { after_sequence: 2 });
    let page = vec![frame(3, 2, None, StreamFrame::AssistantTurnStarted), frame(4, 2, None, StreamFrame::AssistantTurnCompleted)];
    assert_eq!(absorb_replay_page(&mut events, &page, 3), ReplayStep::Done);
    assert_eq!(events.iter().map(|e| e.sequence).collect::<Vec<_>>(), vec![1, 2, 3]);
    assert_eq!(absorb_replay_page(&mut events, &Vec::new(), 3), ReplayStep::Done);
    assert_eq!(events.len(), 3);
}

#[test]
fn replay_pages_keep_within_the_replay_limit() {
    assert_eq!(next_replay_page_limit(1, 5, 0), Ok(FORK_REPLAY_BATCH_LIMIT));
    assert_eq!(next_replay_page_limit(1, 5, FORK_REPLAY_TOTAL_LIMIT - 20), Ok(20));
    assert_eq!(
        next_replay_page_limit(1, 5, FORK_REPLAY_TOTAL_LIMIT),
        Err(ForkError::ForkPointNotFound { run_id: 1, boundary: 5 })
    );
}

#[test]
fn fork_replays_need_a_native_parent_in_the_session() {
    let fork = RunRecord {
        id: 2,
        session_id: 1,
        status: RunStatus::Queued,
        harness: RunHarnessKind::Native,
        source: RunSource::Forked { parent_run_id: 1, parent_event_seq: 4 },
        started_at_ms: None,
        ended_at_ms: None,
        last_event_seq: None,
    };
    let p = parent(RunHarnessKind::Native, Some(5));
    assert_eq!(check_fork_replay_parent(&fork, Some(&p)), Ok(Some((1, 4))));
    assert_eq!(check_fork_replay_parent(&fork, None), Err(ForkReplayError::ParentNotFound(1)));
    let acp = parent(RunHarnessKind::Acp, Some(5));
    assert_eq!(check_fork_replay_parent(&fork, Some(&acp)), Err(ForkReplayError::ParentNotNative(1)));
    assert_eq!(check_fork_replay_parent(&p, None), Ok(None));
}

#[test]
fn fork_run_replays_the_parent_attachment_manifest() {
    let attachments = vec![ta_orchestrator::attachments::WorkspaceFileAttachment {
        path: "docs/context.md".to_string(),
        revision: "sha256:context".to_string(),
        kind: ta_orchestrator::attachments::WorkspaceFileKind::Text,
        byte_len: 128,
    }];
    // The parent's first message carries the manifest; the fork replays it as the user turn.
    let first = ta_orchestrator::attachments::user_message_with_attachments("Parent with context", &attachments);
    let rows = vec![AgentTurnRow::Assistant { run_id: 1, sequence: 3, turn_id: 1, text: "context accepted".to_string() }];
    let messages = turn_rows_to_messages(first, &rows).expect("replay");
    assert_eq!(messages.len(), 2);
    match &messages[0] {
        StreamMessage::User { text } => {
            assert!(text.starts_with("Parent with context\n\n<taugentic_workspace_attachments>"));
            assert!(text.contains("docs/context.md"));
            assert!(text.contains("sha256:context"));
        },
        other => panic!("unexpected {:?}", other),
    }
    assert!(matches!(&messages[1], StreamMessage::Assistant { text, .. } if text == "context accepted"));
}

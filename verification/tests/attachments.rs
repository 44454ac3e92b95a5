use ta_orchestrator::artifacts::ImageLimits;
use ta_orchestrator::attachments::{
    check_image_input, check_validated_attachments, plan_start_selection, preflight_image_attachments,
    start_run_objective, user_message_with_attachments, CheckedAttachment, NextRunSelection, WorkspaceFileAttachment,
    WorkspaceFileAttachmentRequest, WorkspaceFileKind,
};
use ta_orchestrator::errors::RunExecutionError;

fn image_attachment(path: &str, bytes: &[u8]) -> WorkspaceFileAttachment {
    WorkspaceFileAttachment {
        path: path.to_string(),
        revision: "rev".to_string(),
        kind: WorkspaceFileKind::Image,
        byte_len: bytes.len() as u64,
    }
}

fn text(path: &str, revision: &str, byte_len: u64) -> WorkspaceFileAttachment {
    WorkspaceFileAttachment {
        path: path.to_string(),
        revision: revision.to_string(),
        kind: WorkspaceFileKind::Text,
        byte_len,
    }
}

fn failure(r: Result<(), RunExecutionError>) -> String {
    match r {
        Err(RunExecutionError::ProviderExecutionFailed(m)) => m,
        other => panic!("unexpected {:?}", other),
    }
}

#[test]
fn provider_user_message_contains_one_structured_attachment_manifest() {
    let message = user_message_with_attachments(
        "Inspect this file",
        &vec![text("src/main.rs", "sha256:abc", 42), image_attachment("diagram.png", b"\x89PNG\r\n\x1a\n")],
    );
    assert_eq!(
        message,
        "Inspect this file\n\n<taugentic_workspace_attachments>\n[{\"byteLength\":\"42\",\"kind\":\"text\",\"path\":\"src/main.rs\",\"revision\":\"sha256:abc\"}]\n</taugentic_workspace_attachments>"
    );
    assert!(!message.contains("diagram.png"));
}

#[test]
fn manifests_list_every_text_file_and_escape_json() {
    let message = user_message_with_attachments(
        "Look",
        &vec![text("a \"b\".md", "r1", 0), text("c\\d.md", "r2", 7)],
    );
    assert_eq!(
        message,
        "Look\n\n<taugentic_workspace_attachments>\n[{\"byteLength\":\"0\",\"kind\":\"text\",\"path\":\"a \\\"b\\\".md\",\"revision\":\"r1\"},{\"byteLength\":\"7\",\"kind\":\"text\",\"path\":\"c\\\\d.md\",\"revision\":\"r2\"}]\n</taugentic_workspace_attachments>"
    );
    assert_eq!(user_message_with_attachments("Only text", &Vec::new()), "Only text");
    assert_eq!(
        user_message_with_attachments("Only images", &vec![image_attachment("x.png", b"123")]),
        "Only images"
    );
}

#[test]
fn run_execution_rejects_workspace_attachments_not_validated_by_the_app_boundary() {
    let requests = vec![WorkspaceFileAttachmentRequest {
        path: "docs/context.md".to_string(),
        expected_revision: "sha256:context".to_string(),
    }];
    assert!(matches!(
        check_validated_attachments(&requests, &Vec::new()),
        Err(RunExecutionError::UnvalidatedWorkspaceFileAttachments)
    ));
    assert!(matches!(
        check_validated_attachments(&requests, &vec![text("docs/context.md", "sha256:other", 1)]),
        Err(RunExecutionError::UnvalidatedWorkspaceFileAttachments)
    ));
    assert!(check_validated_attachments(&requests, &vec![text("docs/context.md", "sha256:context", 1)]).is_ok());
}

#[test]
fn start_run_rejects_blank_objective() {
    assert!(matches!(start_run_objective("   \n"), Err(RunExecutionError::EmptyRunObjective)));
    assert_eq!(start_run_objective("  Ship it ").unwrap(), "Ship it");
}

#[test]
fn start_run_rejects_unknown_session() {
    assert!(matches!(plan_start_selection(4, None), Err(RunExecutionError::SessionNotFound(4))));
    assert_eq!(plan_start_selection(4, Some(NextRunSelection::Unselected)).unwrap(), true);
    assert_eq!(plan_start_selection(4, Some(NextRunSelection::Selected { agrees: true })).unwrap(), false);
    assert!(matches!(
        plan_start_selection(4, Some(NextRunSelection::Selected { agrees: false })),
        Err(RunExecutionError::ProviderExecutionFailed(m))
            if m == "run selection does not agree with the session's next-run selection"
    ));
}

#[test]
fn unsupported_image_input_rejects_before_run_persistence() {
    let attachments = vec![text("a.md", "r", 1), image_attachment("x.png", b"123")];
    assert_eq!(failure(check_image_input(&attachments, false)), "the selected runtime does not support image input");
    assert!(check_image_input(&attachments, true).is_ok());
    assert!(check_image_input(&vec![text("a.md", "r", 1)], false).is_ok());
}

#[test]
fn image_attachments_are_revalidated_immediately_before_provider_dispatch() {
    let limits = ImageLimits { max_bytes: 10, max_count: 2, max_total_bytes: 15 };
    let ok = vec![CheckedAttachment::Checked { kind: WorkspaceFileKind::Image, byte_len: 5 }];
    assert!(preflight_image_attachments(&ok, limits).is_ok());
    let changed = vec![CheckedAttachment::Checked { kind: WorkspaceFileKind::Text, byte_len: 5 }];
    assert_eq!(failure(preflight_image_attachments(&changed, limits)), "image attachment failed runtime preflight");
    let grown = vec![CheckedAttachment::Checked { kind: WorkspaceFileKind::Image, byte_len: 11 }];
    assert_eq!(failure(preflight_image_attachments(&grown, limits)), "image attachment failed runtime preflight");
    let gone = vec![
        CheckedAttachment::Checked { kind: WorkspaceFileKind::Image, byte_len: 5 },
        CheckedAttachment::Unreadable("revision changed".to_string()),
    ];
    assert_eq!(failure(preflight_image_attachments(&gone, limits)), "revision changed");
    let total = vec![
        CheckedAttachment::Checked { kind: WorkspaceFileKind::Image, byte_len: 8 },
        CheckedAttachment::Checked { kind: WorkspaceFileKind::Image, byte_len: 8 },
    ];
    assert_eq!(failure(preflight_image_attachments(&total, limits)), "image attachment total exceeds the runtime limit");
    let many = vec![
        CheckedAttachment::Checked { kind: WorkspaceFileKind::Image, byte_len: 1 },
        CheckedAttachment::Checked { kind: WorkspaceFileKind::Image, byte_len: 1 },
        CheckedAttachment::Checked { kind: WorkspaceFileKind::Image, byte_len: 1 },
    ];
    assert_eq!(failure(preflight_image_attachments(&many, limits)), "image attachment count exceeds the runtime limit");
}

#[test]
fn manifest_paths_escape_control_characters_as_json() {
    let message = user_message_with_attachments("Look", &vec![text("x\n\u{1}\u{1f}\t\u{8}\u{c}\r/é", "r", 1)]);
    assert_eq!(
        message,
        "Look\n\n<taugentic_workspace_attachments>\n[{\"byteLength\":\"1\",\"kind\":\"text\",\"path\":\"x\\n\\u0001\\u001f\\t\\b\\f\\r/é\",\"revision\":\"r\"}]\n</taugentic_workspace_attachments>"
    );
}

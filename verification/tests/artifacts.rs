use base64::Engine;
use sha2::Digest;
use ta_orchestrator::artifacts::{
    artifact_kind_label, image_bytes_total, artifact_preflight, artifact_receipt_create_input, generated_image_metadata, image_media_type,
    leased_artifact_preflight, normalize_artifact_storage_path, plan_artifact_receipt, prepare_generated_image, receipt_exists_for_artifact,
    receipt_kind_for_artifact, sha256_text, ArtifactKind, ArtifactMetadata, ArtifactRecord, ImageArtifactMetadata,
    ImageArtifactProvenance, ImageLimits, ImageMediaType, ReceiptKind,
};
use ta_orchestrator::errors::RunExecutionError;
use ta_orchestrator::run::{RunHarnessKind, RunRecord, RunSource, RunStatus};

const PNG: &[u8] = b"\x89PNG\r\n\x1a\nrest";

fn run() -> RunRecord {
    RunRecord {
        id: 1,
        session_id: 1,
        status: RunStatus::Running,
        harness: RunHarnessKind::Native,
        source: RunSource::User { output_contract: None, recipe_id: None },
        started_at_ms: None,
        ended_at_ms: None,
        last_event_seq: None,
    }
}

fn limits() -> ImageLimits {
    ImageLimits { max_bytes: 64, max_count: 10, max_total_bytes: 100 }
}

fn b64(bytes: &[u8]) -> String {
    base64::engine::general_purpose::STANDARD.encode(bytes)
}

fn provenance() -> ImageArtifactProvenance {
    ImageArtifactProvenance { runtime_profile_id: "p".to_string(), provider_id: "q".to_string(), turn_id: 1, item_id: 2 }
}

fn image_artifact(byte_len: u64) -> ArtifactRecord {
    ArtifactRecord {
        id: "artifact-old".to_string(),
        session_id: 1,
        run_id: 1,
        kind: ArtifactKind::Image,
        metadata: ArtifactMetadata::Image(ImageArtifactMetadata {
            media_type: ImageMediaType::Png,
            sha256: "sha256:00".to_string(),
            byte_len,
            provenance: provenance(),
        }),
        storage_path: "x.png".to_string(),
    }
}

fn failure(r: Result<(Vec<u8>, ImageMediaType), RunExecutionError>) -> String {
    match r {
        Err(RunExecutionError::ProviderExecutionFailed(m)) => m,
        other => panic!("unexpected {:?}", other),
    }
}

#[test]
fn generated_images_publish_only_supported_magic_with_typed_provenance_and_hash() {
    let (bytes, media) = prepare_generated_image(&run(), 1, true, &b64(PNG), &Vec::new(), limits()).expect("png");
    assert_eq!(bytes, PNG.to_vec());
    assert_eq!(media, ImageMediaType::Png);
    let metadata = generated_image_metadata(&bytes, media, provenance());
    assert_eq!(metadata.sha256, format!("sha256:{:x}", sha2::Sha256::digest(PNG)));
    assert_eq!(metadata.byte_len, PNG.len() as u64);
    assert_eq!(metadata.provenance.item_id, 2);
    assert_eq!(image_media_type(&[0xff, 0xd8, 0xff, 0x00]), Some(ImageMediaType::Jpeg));
    assert_eq!(image_media_type(b"GIF89a..."), Some(ImageMediaType::Gif));
    assert_eq!(image_media_type(b"GIF87a"), Some(ImageMediaType::Gif));
    assert_eq!(image_media_type(b"RIFF\0\0\0\0WEBPVP8 "), Some(ImageMediaType::Webp));
    assert_eq!(image_media_type(b"RIFF\0\0\0\0WEBX"), None);
    assert_eq!(image_media_type(b"\x89PNG"), None);
}

#[test]
fn unsupported_runtime_image_output_rejects_before_file_or_commit() {
    assert_eq!(
        failure(prepare_generated_image(&run(), 1, false, &b64(PNG), &Vec::new(), limits())),
        "the selected runtime does not support image output"
    );
    assert!(matches!(
        prepare_generated_image(&run(), 2, true, &b64(PNG), &Vec::new(), limits()),
        Err(RunExecutionError::RunSessionMismatch(1))
    ));
}

#[test]
fn generated_images_reject_malformed_empty_and_unsupported_payloads_before_publication() {
    assert_eq!(
        failure(prepare_generated_image(&run(), 1, true, "not base64!", &Vec::new(), limits())),
        "completed imageGeneration result is not standard base64"
    );
    assert_eq!(
        failure(prepare_generated_image(&run(), 1, true, "", &Vec::new(), limits())),
        "completed imageGeneration result exceeds the image artifact limit"
    );
    assert_eq!(
        failure(prepare_generated_image(&run(), 1, true, &b64(b"plain text"), &Vec::new(), limits())),
        "completed imageGeneration result is not a supported image"
    );
}

#[test]
fn generated_image_count_cap_rejects_before_an_eleventh_file_or_commit() {
    let existing: Vec<ArtifactRecord> = (0..10).map(|_| image_artifact(1)).collect();
    assert_eq!(
        failure(prepare_generated_image(&run(), 1, true, &b64(PNG), &existing, limits())),
        "completed imageGeneration result exceeds the image artifact count limit"
    );
}

#[test]
fn generated_image_aggregate_cap_rejects_before_file_or_commit() {
    let existing = vec![image_artifact(95)];
    assert_eq!(
        failure(prepare_generated_image(&run(), 1, true, &b64(PNG), &existing, limits())),
        "completed imageGeneration results exceed the aggregate image artifact limit"
    );
}

#[test]
fn generated_image_per_item_cap_rejects_before_file_or_commit() {
    let mut big = PNG.to_vec();
    big.resize(65, 0);
    assert_eq!(
        failure(prepare_generated_image(&run(), 1, true, &b64(&big), &Vec::new(), limits())),
        "completed imageGeneration result exceeds the image artifact limit"
    );
}

#[test]
fn fingerprints_are_lowercase_hex() {
    assert_eq!(sha256_text(&vec![0x00, 0x0f, 0xa0, 0xff]), "sha256:000fa0ff");
    assert_eq!(sha256_text(&Vec::new()), "sha256:");
}

#[test]
fn storage_paths_are_trimmed_and_blank_ones_refused() {
    assert_eq!(normalize_artifact_storage_path("  a/b.md \n").unwrap(), "a/b.md");
    assert!(matches!(normalize_artifact_storage_path(" \t "), Err(RunExecutionError::EmptyArtifactStoragePath)));
}

#[test]
fn record_artifact_rejects_missing_run_projection() {
    assert!(matches!(artifact_preflight(3, 1, None, false), Err(RunExecutionError::RunNotFound(3))));
}

#[test]
fn record_artifact_rejects_run_without_live_owner() {
    let r = run();
    assert!(matches!(artifact_preflight(1, 1, Some(&r), false), Err(RunExecutionError::RunNotLiveOwned(1))));
    assert!(matches!(artifact_preflight(1, 2, Some(&r), true), Err(RunExecutionError::RunSessionMismatch(1))));
    assert!(artifact_preflight(1, 1, Some(&r), true).is_ok());
    assert!(matches!(leased_artifact_preflight(1, 2, Some(&r)), Err(RunExecutionError::RunNotLiveOwned(1))));
    assert!(leased_artifact_preflight(1, 1, Some(&r)).is_ok());
}

#[test]
fn native_artifacts_produce_receipts() {
    let artifact = ArtifactRecord {
        id: "artifact-7".to_string(),
        session_id: 1,
        run_id: 1,
        kind: ArtifactKind::FileSnapshot,
        metadata: ArtifactMetadata::Standard,
        storage_path: "snap".to_string(),
    };
    let receipt = artifact_receipt_create_input(&run(), &artifact).expect("native receipt");
    assert_eq!(receipt.kind, ReceiptKind::Evidence);
    assert_eq!(receipt.title, "Artifact artifact-7");
    assert_eq!(receipt.summary, "file snapshot artifact returned from native run");
    assert_eq!(receipt.parent_run_id, None);
    let mut acp = run();
    acp.harness = RunHarnessKind::Acp;
    assert!(artifact_receipt_create_input(&acp, &artifact).is_none());
    assert_eq!(receipt_kind_for_artifact(ArtifactKind::Patch), ReceiptKind::Patch);
    assert_eq!(receipt_kind_for_artifact(ArtifactKind::Image), ReceiptKind::Artifact);
    assert_eq!(artifact_kind_label(ArtifactKind::CommandLog), "command log");
}

#[test]
fn record_artifact_does_not_leave_ghost_activity_on_duplicate_artifact() {
    let ids = vec![None, Some("artifact-1".to_string())];
    assert!(receipt_exists_for_artifact(&ids, &"artifact-1".to_string()));
    assert!(!receipt_exists_for_artifact(&ids, &"artifact-2".to_string()));
}

#[test]
fn image_totals_are_summed_exactly() {
    assert_eq!(image_bytes_total(&vec![image_artifact(3), image_artifact(4)]), Some(7));
    assert_eq!(image_bytes_total(&vec![image_artifact(u64::MAX), image_artifact(1)]), None);
}

#[test]
fn image_formats_have_their_file_extensions() {
    assert_eq!(ImageMediaType::Png.extension(), "png");
    assert_eq!(ImageMediaType::Jpeg.extension(), "jpg");
    assert_eq!(ImageMediaType::Gif.extension(), "gif");
    assert_eq!(ImageMediaType::Webp.extension(), "webp");
}

#[test]
fn artifact_receipts_are_created_once() {
    let artifact = ArtifactRecord {
        id: "artifact-7".to_string(),
        session_id: 1,
        run_id: 1,
        kind: ArtifactKind::Patch,
        metadata: ArtifactMetadata::Standard,
        storage_path: "diff".to_string(),
    };
    let mut listed = vec![None, Some("artifact-3".to_string())];
    let first = plan_artifact_receipt(&run(), &artifact, &listed).expect("first receipt");
    assert_eq!(first.kind, ReceiptKind::Patch);
    assert_eq!(first.artifact_id, "artifact-7");
    listed.push(Some(artifact.id.clone()));
    assert!(plan_artifact_receipt(&run(), &artifact, &listed).is_none());
}

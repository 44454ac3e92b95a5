//! Artifacts that runs publish: generated images checked against their
//! limits and fingerprinted, storage paths, and the context receipts that
//! native runs derive from their artifacts.

use base64::Engine;
use sha2::Digest;
use vstd::prelude::*;

use crate::errors::RunExecutionError;
use crate::run::{RunHarnessKind, RunId, RunRecord, RunStatus, SessionId, spec_lineage_parent, lineage_parent_run_id};
use crate::text::{hex_digit, spec_hex_digit, spec_trim, trimmed};

verus! {

/// What an artifact holds.
#[derive(Debug, Clone, Copy, PartialEq, Eq, Structural)]
pub enum ArtifactKind {
    Transcript,
    Patch,
    FileSnapshot,
    CommandLog,
    Image,
}

/// The kinds of context receipt.
#[derive(Debug, Clone, Copy, PartialEq, Eq, Structural)]
pub enum ReceiptKind {
    Summary,
    Patch,
    ReviewFinding,
    TestOutput,
    Artifact,
    Evidence,
}

/// The image formats that artifacts accept.
#[derive(Debug, Clone, Copy, PartialEq, Eq, Structural)]
pub enum ImageMediaType {
    Png,
    Jpeg,
    Gif,
    Webp,
}

impl ImageMediaType {
    /// The file extension of the format.
    pub open spec fn spec_extension(self) -> Seq<char> {
        match self {
            ImageMediaType::Png => "png"@,
            ImageMediaType::Jpeg => "jpg"@,
            ImageMediaType::Gif => "gif"@,
            ImageMediaType::Webp => "webp"@,
        }
    }

    /// The file extension of the format.
    pub fn extension(&self) -> (e: &'static str)
        ensures
            e@ == self.spec_extension(),
    {
        match self {
            ImageMediaType::Png => "png",
            ImageMediaType::Jpeg => "jpg",
            ImageMediaType::Gif => "gif",
            ImageMediaType::Webp => "webp",
        }
    }
}

/// Where a generated image came from.
#[derive(Debug)]
pub struct ImageArtifactProvenance {
    pub runtime_profile_id: String,
    pub provider_id: String,
    pub turn_id: u64,
    pub item_id: u64,
}

/// What is recorded of an image artifact.
#[derive(Debug)]
pub struct ImageArtifactMetadata {
    pub media_type: ImageMediaType,
    /// `sha256:` and the lowercase hexadecimal digest of the bytes.
    pub sha256: String,
    pub byte_len: u64,
    pub provenance: ImageArtifactProvenance,
}

/// Kind-specific metadata of an artifact.
#[derive(Debug)]
pub enum ArtifactMetadata {
    Standard,
    Image(ImageArtifactMetadata),
}

/// A stored artifact.
#[derive(Debug)]
pub struct ArtifactRecord {
    pub id: String,
    pub session_id: SessionId,
    pub run_id: RunId,
    pub kind: ArtifactKind,
    pub metadata: ArtifactMetadata,
    pub storage_path: String,
}

/// The limits that generated images of one run must keep.
#[derive(Debug, Clone, Copy, PartialEq, Eq, Structural)]
pub struct ImageLimits {
    /// The largest size of one image, in bytes.
    pub max_bytes: u64,
    /// The most images one run may hold.
    pub max_count: usize,
    /// The largest total size of a run's images, in bytes.
    pub max_total_bytes: u64,
}

/// Whether `bytes` starts with `prefix`.
pub open spec fn spec_starts_with(bytes: Seq<u8>, prefix: Seq<u8>) -> bool {
    prefix.len() <= bytes.len() && bytes.subrange(0, prefix.len() as int) == prefix
}

/// The image format that the leading bytes announce: the PNG signature, the
/// JPEG start-of-image marker, a GIF87a or GIF89a header, or a RIFF
/// container of WEBP data.
pub open spec fn spec_image_media_type(bytes: Seq<u8>) -> Option<ImageMediaType> {
    if spec_starts_with(bytes, seq![0x89u8, 0x50u8, 0x4eu8, 0x47u8, 0x0du8, 0x0au8, 0x1au8, 0x0au8]) {
        Some(ImageMediaType::Png)
    } else if spec_starts_with(bytes, seq![0xffu8, 0xd8u8, 0xffu8]) {
        Some(ImageMediaType::Jpeg)
    } else if spec_starts_with(bytes, seq![0x47u8, 0x49u8, 0x46u8, 0x38u8, 0x37u8, 0x61u8])
        || spec_starts_with(bytes, seq![0x47u8, 0x49u8, 0x46u8, 0x38u8, 0x39u8, 0x61u8]) {
        Some(ImageMediaType::Gif)
    } else if bytes.len() >= 12 && bytes.subrange(0, 4) == seq![0x52u8, 0x49u8, 0x46u8, 0x46u8]
        && bytes.subrange(8, 12) == seq![0x57u8, 0x45u8, 0x42u8, 0x50u8] {
        Some(ImageMediaType::Webp)
    } else {
        None
    }
}

fn starts_with(bytes: &[u8], prefix: &[u8]) -> (res: bool)
    ensures
        res == spec_starts_with(bytes@, prefix@),
{
    if prefix.len() > bytes.len() {
        return false;
    }
    let mut i: usize = 0;
    while i < prefix.len()
        invariant
            prefix.len() <= bytes.len(),
            0 <= i <= prefix.len(),
            forall|k: int| 0 <= k < i ==> bytes@[k] == prefix@[k],
        decreases prefix.len() - i,
    {
        if bytes[i] != prefix[i] {
            assert(bytes@.subrange(0, prefix.len() as int)[i as int] != prefix@[i as int]);
            return false;
        }
        i = i + 1;
    }
    assert(bytes@.subrange(0, prefix.len() as int) =~= prefix@);
    true
}

/// The image format of `bytes` (see [`spec_image_media_type`]).
pub fn image_media_type(bytes: &[u8]) -> (t: Option<ImageMediaType>)
    ensures
        t == spec_image_media_type(bytes@),
{
    let png: [u8; 8] = [0x89u8, 0x50u8, 0x4eu8, 0x47u8, 0x0du8, 0x0au8, 0x1au8, 0x0au8];
    let jpeg: [u8; 3] = [0xffu8, 0xd8u8, 0xffu8];
    let gif87: [u8; 6] = [0x47u8, 0x49u8, 0x46u8, 0x38u8, 0x37u8, 0x61u8];
    let gif89: [u8; 6] = [0x47u8, 0x49u8, 0x46u8, 0x38u8, 0x39u8, 0x61u8];
    assert(png@ =~= seq![0x89u8, 0x50u8, 0x4eu8, 0x47u8, 0x0du8, 0x0au8, 0x1au8, 0x0au8]);
    assert(jpeg@ =~= seq![0xffu8, 0xd8u8, 0xffu8]);
    assert(gif87@ =~= seq![0x47u8, 0x49u8, 0x46u8, 0x38u8, 0x37u8, 0x61u8]);
    assert(gif89@ =~= seq![0x47u8, 0x49u8, 0x46u8, 0x38u8, 0x39u8, 0x61u8]);
    if starts_with(bytes, png.as_slice()) {
        Some(ImageMediaType::Png)
    } else if starts_with(bytes, jpeg.as_slice()) {
        Some(ImageMediaType::Jpeg)
    } else if starts_with(bytes, gif87.as_slice()) || starts_with(bytes, gif89.as_slice()) {
        Some(ImageMediaType::Gif)
    } else if bytes.len() >= 12 && bytes[0] == 0x52u8 && bytes[1] == 0x49u8 && bytes[2] == 0x46u8
        && bytes[3] == 0x46u8 && bytes[8] == 0x57u8 && bytes[9] == 0x45u8 && bytes[10] == 0x42u8
        && bytes[11] == 0x50u8 {
        assert(bytes@.subrange(0, 4) =~= seq![0x52u8, 0x49u8, 0x46u8, 0x46u8]);
        assert(bytes@.subrange(8, 12) =~= seq![0x57u8, 0x45u8, 0x42u8, 0x50u8]);
        Some(ImageMediaType::Webp)
    } else {
        proof {
            if bytes@.len() >= 12 && bytes@.subrange(0, 4) == seq![0x52u8, 0x49u8, 0x46u8, 0x46u8] {
                assert(bytes@[0] == bytes@.subrange(0, 4)[0]);
                assert(bytes@[1] == bytes@.subrange(0, 4)[1]);
                assert(bytes@[2] == bytes@.subrange(0, 4)[2]);
                assert(bytes@[3] == bytes@.subrange(0, 4)[3]);
                if bytes@.subrange(8, 12) == seq![0x57u8, 0x45u8, 0x42u8, 0x50u8] {
                    assert(bytes@[8] == bytes@.subrange(8, 12)[0]);
                    assert(bytes@[9] == bytes@.subrange(8, 12)[1]);
                    assert(bytes@[10] == bytes@.subrange(8, 12)[2]);
                    assert(bytes@[11] == bytes@.subrange(8, 12)[3]);
                }
            }
        }
        None
    }
}

/// What the standard base64 engine (standard alphabet, padded) decodes
/// `input` to, or `None` when the engine refuses it.
pub uninterp spec fn spec_base64_standard_decode(input: Seq<char>) -> Option<Seq<u8>>;

/// `base64::engine::general_purpose::STANDARD.decode`: the decoded bytes of
/// `input` under the standard alphabet with padding, or `None` where the
/// engine reports a decode error. The decoded value is named, not stated.
#[verifier::external_body]
fn base64_standard_decode(input: &str) -> (r: Option<Vec<u8>>)
    ensures
        match r {
            Some(v) => spec_base64_standard_decode(input@) == Some(v@),
            None => spec_base64_standard_decode(input@) is None,
        },
{
    base64::engine::general_purpose::STANDARD.decode(input).ok()
}

/// The SHA-256 digest of `data`.
pub uninterp spec fn spec_sha256(data: Seq<u8>) -> Seq<u8>;

/// `sha2::Sha256::digest`: the SHA-256 digest of `data`, whose output type
/// holds 32 bytes. The digest itself is named, not stated.
#[verifier::external_body]
fn sha256_digest(data: &[u8]) -> (d: Vec<u8>)
    ensures
        d@ == spec_sha256(data@),
        d@.len() == 32,
{
    sha2::Sha256::digest(data).to_vec()
}

/// The lowercase hexadecimal text of `bytes`, two digits per byte.
pub open spec fn spec_lower_hex(bytes: Seq<u8>) -> Seq<char>
    decreases bytes.len(),
{
    if bytes.len() == 0 {
        Seq::empty()
    } else {
        spec_lower_hex(bytes.drop_last()) + seq![
            spec_hex_digit(bytes.last() as int / 16),
            spec_hex_digit(bytes.last() as int % 16),
        ]
    }
}

/// The fingerprint text of a digest: `sha256:` and its lowercase hex.
pub open spec fn spec_sha256_text(digest: Seq<u8>) -> Seq<char> {
    "sha256:"@ + spec_lower_hex(digest)
}

/// The fingerprint text of a digest (see [`spec_sha256_text`]).
pub fn sha256_text(digest: &Vec<u8>) -> (t: String)
    ensures
        t@ == spec_sha256_text(digest@),
{
    let mut t = String::from_str("sha256:");
    let ghost prefix = "sha256:"@;
    let mut i: usize = 0;
    while i < digest.len()
        invariant
            0 <= i <= digest.len(),
            prefix == "sha256:"@,
            t@ == prefix + spec_lower_hex(digest@.take(i as int)),
        decreases digest.len() - i,
    {
        assert(digest@.take((i + 1) as int).drop_last() == digest@.take(i as int));
        let b = digest[i];
        let ghost before = t@;
        t.append(hex_digit(b / 16));
        t.append(hex_digit(b % 16));
        assert(t@ =~= prefix + spec_lower_hex(digest@.take((i + 1) as int)));
        i = i + 1;
    }
    assert(digest@.take(digest.len() as int) == digest@);
    t
}

/// The number of images among `artifacts`.
pub open spec fn spec_image_count(artifacts: Seq<ArtifactRecord>) -> nat
    decreases artifacts.len(),
{
    if artifacts.len() == 0 {
        0
    } else {
        spec_image_count(artifacts.drop_last()) + if artifacts.last().kind == ArtifactKind::Image {
            1nat
        } else {
            0nat
        }
    }
}

/// The total recorded size of the image artifacts among `artifacts`.
pub open spec fn spec_image_bytes(artifacts: Seq<ArtifactRecord>) -> nat
    decreases artifacts.len(),
{
    if artifacts.len() == 0 {
        0
    } else {
        spec_image_bytes(artifacts.drop_last()) + match artifacts.last().metadata {
            ArtifactMetadata::Image(m) => m.byte_len as nat,
            ArtifactMetadata::Standard => 0nat,
        }
    }
}

/// The total recorded size of the image artifacts, when it fits in `u64`.
pub fn image_bytes_total(artifacts: &Vec<ArtifactRecord>) -> (r: Option<u64>)
    ensures
        match r {
            Some(t) => t == spec_image_bytes(artifacts@),
            None => spec_image_bytes(artifacts@) > u64::MAX,
        },
{
    let mut total: u64 = 0;
    let mut i: usize = 0;
    while i < artifacts.len()
        invariant
            0 <= i <= artifacts.len(),
            total == spec_image_bytes(artifacts@.take(i as int)),
        decreases artifacts.len() - i,
    {
        assert(artifacts@.take((i + 1) as int).drop_last() == artifacts@.take(i as int));
        match &artifacts[i].metadata {
            ArtifactMetadata::Image(m) => {
                match total.checked_add(m.byte_len) {
                    Some(t) => {
                        total = t;
                    },
                    None => {
                        proof { lemma_image_bytes_prefix(artifacts@, (i + 1) as int); }
                        return None;
                    },
                }
            },
            ArtifactMetadata::Standard => {},
        }
        i = i + 1;
    }
    assert(artifacts@.take(artifacts.len() as int) == artifacts@);
    Some(total)
}

/// A failure reported by the provider path with message `msg`.
pub open spec fn spec_provider_failure<T>(r: Result<T, RunExecutionError>, msg: Seq<char>) -> bool {
    r matches Err(RunExecutionError::ProviderExecutionFailed(m)) && m@ == msg
}

/// The checks of a decoded generated image, in order: its size, its
/// format, then the run's image count and total size (a sum that saturates
/// at `u64::MAX`). The result is the
/// image's format, or the message of the first check that fails.
pub open spec fn spec_check_generated_image(
    bytes: Seq<u8>,
    existing: Seq<ArtifactRecord>,
    limits: ImageLimits,
) -> Result<ImageMediaType, Seq<char>> {
    if bytes.len() == 0 || bytes.len() > limits.max_bytes {
        Err("completed imageGeneration result exceeds the image artifact limit"@)
    } else if spec_image_media_type(bytes) is None {
        Err("completed imageGeneration result is not a supported image"@)
    } else if spec_image_count(existing) >= limits.max_count {
        Err("completed imageGeneration result exceeds the image artifact count limit"@)
    } else if (if spec_image_bytes(existing) + bytes.len() > u64::MAX {
        u64::MAX as int
    } else {
        (spec_image_bytes(existing) + bytes.len()) as int
    }) > limits.max_total_bytes {
        Err("completed imageGeneration results exceed the aggregate image artifact limit"@)
    } else {
        Ok(spec_image_media_type(bytes)->0)
    }
}

/// `r` reports what [`spec_check_generated_image`] decides.
pub open spec fn spec_matches_check<T>(r: Result<T, RunExecutionError>, check: Result<ImageMediaType, Seq<char>>) -> bool {
    match check {
        Ok(_) => r is Ok,
        Err(msg) => spec_provider_failure(r, msg),
    }
}

fn provider_failure(msg: &str) -> (e: RunExecutionError)
    ensures
        e matches RunExecutionError::ProviderExecutionFailed(m) && m@ == msg@,
{
    RunExecutionError::ProviderExecutionFailed(String::from_str(msg))
}

/// Check a decoded generated image against the run's image limits (see
/// [`spec_check_generated_image`]); `existing` are the run's artifacts.
pub fn check_generated_image(bytes: &Vec<u8>, existing: &Vec<ArtifactRecord>, limits: ImageLimits) -> (r: Result<
    ImageMediaType,
    RunExecutionError,
>)
    requires
        spec_image_bytes(existing@) <= u64::MAX,
    ensures
        spec_matches_check(r, spec_check_generated_image(bytes@, existing@, limits)),
        r matches Ok(t) ==> spec_check_generated_image(bytes@, existing@, limits) == Ok::<ImageMediaType, Seq<char>>(t),
{
    proof {
        reveal_strlit("completed imageGeneration result exceeds the image artifact limit");
        reveal_strlit("completed imageGeneration result is not a supported image");
        reveal_strlit("completed imageGeneration result exceeds the image artifact count limit");
        reveal_strlit("completed imageGeneration results exceed the aggregate image artifact limit");
    }
    let len: u64 = bytes.len() as u64;
    if bytes.len() == 0 || len > limits.max_bytes {
        return Err(provider_failure("completed imageGeneration result exceeds the image artifact limit"));
    }
    let media_type = match image_media_type(bytes.as_slice()) {
        Some(t) => t,
        None => {
            return Err(provider_failure("completed imageGeneration result is not a supported image"));
        },
    };
    let mut count: usize = 0;
    let mut total: u64 = 0;
    let mut i: usize = 0;
    while i < existing.len()
        invariant
            0 <= i <= existing.len(),
            spec_image_bytes(existing@) <= u64::MAX,
            count == spec_image_count(existing@.take(i as int)),
            total == spec_image_bytes(existing@.take(i as int)),
            count <= i,
        decreases existing.len() - i,
    {
        assert(existing@.take((i + 1) as int).drop_last() == existing@.take(i as int));
        proof { lemma_image_bytes_prefix(existing@, (i + 1) as int); }
        let a = &existing[i];
        if a.kind == ArtifactKind::Image {
            count = count + 1;
        }
        match &a.metadata {
            ArtifactMetadata::Image(m) => {
                total = total + m.byte_len;
            },
            ArtifactMetadata::Standard => {},
        }
        i = i + 1;
    }
    assert(existing@.take(existing.len() as int) == existing@);
    if count >= limits.max_count {
        return Err(provider_failure("completed imageGeneration result exceeds the image artifact count limit"));
    }
    if total.saturating_add(len) > limits.max_total_bytes {
        return Err(
            provider_failure("completed imageGeneration results exceed the aggregate image artifact limit"),
        );
    }
    Ok(media_type)
}

proof fn lemma_image_bytes_prefix(artifacts: Seq<ArtifactRecord>, n: int)
    requires
        0 <= n <= artifacts.len(),
    ensures
        spec_image_bytes(artifacts.take(n)) <= spec_image_bytes(artifacts),
    decreases artifacts.len(),
{
    if n < artifacts.len() {
        lemma_image_bytes_prefix(artifacts.drop_last(), n);
        assert(artifacts.drop_last().take(n) == artifacts.take(n));
    } else {
        assert(artifacts.take(n) == artifacts);
    }
}

/// The outcome of preparing a generated image, given the image-output
/// capability of the run's route: the run must belong to the session, the
/// route must produce images, the text must be standard base64, and the
/// decoded bytes must pass [`spec_check_generated_image`].
pub open spec fn spec_prepare_generated_image(
    run: RunRecord,
    session_id: SessionId,
    image_output_supported: bool,
    raw_base64: Seq<char>,
    existing: Seq<ArtifactRecord>,
    limits: ImageLimits,
    r: Result<(Vec<u8>, ImageMediaType), RunExecutionError>,
) -> bool {
    if run.session_id != session_id {
        r matches Err(RunExecutionError::RunSessionMismatch(id)) && id == run.id
    } else if !image_output_supported {
        spec_provider_failure(r, "the selected runtime does not support image output"@)
    } else {
        match spec_base64_standard_decode(raw_base64) {
            None => spec_provider_failure(r, "completed imageGeneration result is not standard base64"@),
            Some(bytes) => {
                &&& spec_matches_check(r, spec_check_generated_image(bytes, existing, limits))
                &&& r matches Ok((v, t)) ==> v@ == bytes && spec_check_generated_image(bytes, existing, limits)
                    == Ok::<ImageMediaType, Seq<char>>(t)
            },
        }
    }
}

/// Decode and check an image that a provider generated for a run (see
/// [`spec_prepare_generated_image`]). On success the decoded bytes and their
/// format are returned, ready to be written and recorded.
pub fn prepare_generated_image(
    run: &RunRecord,
    session_id: SessionId,
    image_output_supported: bool,
    raw_base64: &str,
    existing: &Vec<ArtifactRecord>,
    limits: ImageLimits,
) -> (r: Result<(Vec<u8>, ImageMediaType), RunExecutionError>)
    requires
        spec_image_bytes(existing@) <= u64::MAX,
    ensures
        spec_prepare_generated_image(*run, session_id, image_output_supported, raw_base64@, existing@, limits, r),
{
    proof {
        reveal_strlit("the selected runtime does not support image output");
        reveal_strlit("completed imageGeneration result is not standard base64");
    }
    if run.session_id != session_id {
        return Err(RunExecutionError::RunSessionMismatch(run.id));
    }
    if !image_output_supported {
        return Err(provider_failure("the selected runtime does not support image output"));
    }
    let bytes = match base64_standard_decode(raw_base64) {
        Some(b) => b,
        None => {
            return Err(provider_failure("completed imageGeneration result is not standard base64"));
        },
    };
    match check_generated_image(&bytes, existing, limits) {
        Ok(t) => Ok((bytes, t)),
        Err(e) => Err(e),
    }
}

/// The metadata recorded for a generated image: its format, the
/// fingerprint of its SHA-256 digest, its size and its provenance.
pub fn generated_image_metadata(
    bytes: &Vec<u8>,
    media_type: ImageMediaType,
    provenance: ImageArtifactProvenance,
) -> (m: ImageArtifactMetadata)
    ensures
        m.media_type == media_type,
        m.sha256@ == spec_sha256_text(spec_sha256(bytes@)),
        m.byte_len == bytes@.len(),
        m.provenance == provenance,
{
    let digest = sha256_digest(bytes.as_slice());
    ImageArtifactMetadata {
        media_type,
        sha256: sha256_text(&digest),
        byte_len: bytes.len() as u64,
        provenance,
    }
}

/// The storage path recorded for an artifact: the given path trimmed; a
/// blank path is refused.
pub fn normalize_artifact_storage_path(storage_path: &str) -> (r: Result<String, RunExecutionError>)
    ensures
        spec_trim(storage_path@).len() == 0 ==> r matches Err(RunExecutionError::EmptyArtifactStoragePath),
        spec_trim(storage_path@).len() > 0 ==> (r matches Ok(p) && p@ == spec_trim(storage_path@)),
{
    let t = trimmed(storage_path);
    if t.as_str().unicode_len() == 0 {
        Err(RunExecutionError::EmptyArtifactStoragePath)
    } else {
        Ok(t)
    }
}

/// The checks before an artifact is published by a caller outside a live
/// execution: the run must exist, belong to the artifact's session, and be
/// running under a live execution (`live_running`).
pub open spec fn spec_artifact_preflight(
    artifact_run_id: RunId,
    artifact_session_id: SessionId,
    run: Option<RunRecord>,
    live_running: bool,
    r: Result<(), RunExecutionError>,
) -> bool {
    match run {
        None => r matches Err(RunExecutionError::RunNotFound(id)) && id == artifact_run_id,
        Some(run) => if run.session_id != artifact_session_id {
            r matches Err(RunExecutionError::RunSessionMismatch(id)) && id == run.id
        } else if run.status != RunStatus::Running || !live_running {
            r matches Err(RunExecutionError::RunNotLiveOwned(id)) && id == run.id
        } else {
            r is Ok
        },
    }
}

/// Check that an artifact may be published (see [`spec_artifact_preflight`]).
pub fn artifact_preflight(
    artifact_run_id: RunId,
    artifact_session_id: SessionId,
    run: Option<&RunRecord>,
    live_running: bool,
) -> (r: Result<(), RunExecutionError>)
    ensures
        spec_artifact_preflight(
            artifact_run_id,
            artifact_session_id,
            match run {
                Some(x) => Some(*x),
                None => None,
            },
            live_running,
            r,
        ),
{
    match run {
        None => Err(RunExecutionError::RunNotFound(artifact_run_id)),
        Some(run) => if run.session_id != artifact_session_id {
            Err(RunExecutionError::RunSessionMismatch(run.id))
        } else if run.status != RunStatus::Running || !live_running {
            Err(RunExecutionError::RunNotLiveOwned(run.id))
        } else {
            Ok(())
        },
    }
}

/// The check before a live execution publishes an artifact under its
/// lease: the run must exist, belong to the artifact's session and be
/// running; the lease already stands for the live owner.
pub open spec fn spec_leased_artifact_preflight(
    artifact_run_id: RunId,
    artifact_session_id: SessionId,
    run: Option<RunRecord>,
    r: Result<(), RunExecutionError>,
) -> bool {
    match run {
        None => r matches Err(RunExecutionError::RunNotFound(id)) && id == artifact_run_id,
        Some(x) => if x.session_id != artifact_session_id || x.status != RunStatus::Running {
            r matches Err(RunExecutionError::RunNotLiveOwned(id)) && id == artifact_run_id
        } else {
            r is Ok
        },
    }
}

/// The check before a live execution publishes an artifact under its
/// lease (see [`spec_leased_artifact_preflight`]).
pub fn leased_artifact_preflight(
    artifact_run_id: RunId,
    artifact_session_id: SessionId,
    run: Option<&RunRecord>,
) -> (r: Result<(), RunExecutionError>)
    ensures
        run is None ==> (r matches Err(RunExecutionError::RunNotFound(id)) && id == artifact_run_id),
        run matches Some(x) ==> (x.session_id != artifact_session_id || x.status != RunStatus::Running
            ==> (r matches Err(RunExecutionError::RunNotLiveOwned(id)) && id == artifact_run_id)),
        run matches Some(x) ==> (x.session_id == artifact_session_id && x.status == RunStatus::Running
            ==> r is Ok),
        spec_leased_artifact_preflight(
            artifact_run_id,
            artifact_session_id,
            match run {
                Some(x) => Some(*x),
                None => None,
            },
            r,
        ),
{
    match run {
        None => Err(RunExecutionError::RunNotFound(artifact_run_id)),
        Some(run) => if run.session_id != artifact_session_id || run.status != RunStatus::Running {
            Err(RunExecutionError::RunNotLiveOwned(artifact_run_id))
        } else {
            Ok(())
        },
    }
}

/// The receipt kind that an artifact of `kind` produces.
pub open spec fn spec_receipt_kind_for_artifact(kind: ArtifactKind) -> ReceiptKind {
    match kind {
        ArtifactKind::Patch => ReceiptKind::Patch,
        ArtifactKind::FileSnapshot => ReceiptKind::Evidence,
        _ => ReceiptKind::Artifact,
    }
}

/// The receipt kind that an artifact of `kind` produces.
pub fn receipt_kind_for_artifact(kind: ArtifactKind) -> (k: ReceiptKind)
    ensures
        k == spec_receipt_kind_for_artifact(kind),
{
    match kind {
        ArtifactKind::Patch => ReceiptKind::Patch,
        ArtifactKind::FileSnapshot => ReceiptKind::Evidence,
        ArtifactKind::Transcript | ArtifactKind::CommandLog | ArtifactKind::Image => ReceiptKind::Artifact,
    }
}

/// The words for an artifact kind.
pub open spec fn spec_artifact_kind_label(kind: ArtifactKind) -> Seq<char> {
    match kind {
        ArtifactKind::Transcript => "transcript"@,
        ArtifactKind::Patch => "patch"@,
        ArtifactKind::FileSnapshot => "file snapshot"@,
        ArtifactKind::CommandLog => "command log"@,
        ArtifactKind::Image => "image"@,
    }
}

/// The words for an artifact kind.
pub fn artifact_kind_label(kind: ArtifactKind) -> (s: &'static str)
    ensures
        s@ == spec_artifact_kind_label(kind),
{
    match kind {
        ArtifactKind::Transcript => "transcript",
        ArtifactKind::Patch => "patch",
        ArtifactKind::FileSnapshot => "file snapshot",
        ArtifactKind::CommandLog => "command log",
        ArtifactKind::Image => "image",
    }
}

/// A context receipt to create for a committed artifact.
#[derive(Debug)]
pub struct CreateReceipt {
    pub session_id: SessionId,
    pub run_id: RunId,
    pub parent_run_id: Option<RunId>,
    pub kind: ReceiptKind,
    pub artifact_id: String,
    pub title: String,
    pub summary: String,
}

/// The receipt that a committed artifact of a native run produces: it names
/// the artifact, carries the run's lineage parent, and is titled and
/// summarised after the artifact. Other harnesses produce none.
pub open spec fn spec_artifact_receipt(run: RunRecord, artifact: ArtifactRecord, r: Option<CreateReceipt>) -> bool {
    if run.harness != RunHarnessKind::Native {
        r is None
    } else {
        r matches Some(c) && {
            &&& c.session_id == artifact.session_id
            &&& c.run_id == artifact.run_id
            &&& c.parent_run_id == spec_lineage_parent(run.source)
            &&& c.kind == spec_receipt_kind_for_artifact(artifact.kind)
            &&& c.artifact_id@ == artifact.id@
            &&& c.title@ == "Artifact "@ + artifact.id@
            &&& c.summary@ == spec_artifact_kind_label(artifact.kind) + " artifact returned from native run"@
        }
    }
}

/// The receipt that a committed artifact produces (see [`spec_artifact_receipt`]).
pub fn artifact_receipt_create_input(run: &RunRecord, artifact: &ArtifactRecord) -> (r: Option<CreateReceipt>)
    ensures
        spec_artifact_receipt(*run, *artifact, r),
{
    if run.harness != RunHarnessKind::Native {
        return None;
    }
    let title = String::from_str("Artifact ").concat(artifact.id.as_str());
    let summary = String::from_str(artifact_kind_label(artifact.kind)).concat(" artifact returned from native run");
    Some(
        CreateReceipt {
            session_id: artifact.session_id,
            run_id: artifact.run_id,
            parent_run_id: lineage_parent_run_id(run),
            kind: receipt_kind_for_artifact(artifact.kind),
            artifact_id: artifact.id.clone(),
            title,
            summary,
        },
    )
}

/// Whether a receipt's artifact reference names the artifact `id`.
pub open spec fn spec_names_artifact(reference: Option<String>, id: Seq<char>) -> bool {
    match reference {
        Some(a) => a@ == id,
        None => false,
    }
}

/// Whether a receipt for the artifact already exists, given the artifact ids
/// that the run's receipts of that kind name.
pub fn receipt_exists_for_artifact(receipt_artifact_ids: &Vec<Option<String>>, artifact_id: &String) -> (res: bool)
    ensures
        res == exists|i: int|
            0 <= i < receipt_artifact_ids@.len() && spec_names_artifact(#[trigger] receipt_artifact_ids@[i], artifact_id@),
{
    let mut i: usize = 0;
    while i < receipt_artifact_ids.len()
        invariant
            0 <= i <= receipt_artifact_ids.len(),
            forall|k: int| 0 <= k < i ==> !spec_names_artifact(#[trigger] receipt_artifact_ids@[k], artifact_id@),
        decreases receipt_artifact_ids.len() - i,
    {
        match &receipt_artifact_ids[i] {
            Some(a) => {
                if *a == *artifact_id {
                    return true;
                }
            },
            None => {},
        }
        i = i + 1;
    }
    false
}


/// An accepted generated image is never empty, keeps the per-image limit,
/// starts with a supported signature, and leaves the run within its count
/// and total limits (whenever that total fits in `u64`; the total saturates
/// there).
pub proof fn law_accepted_images_keep_limits(bytes: Seq<u8>, existing: Seq<ArtifactRecord>, limits: ImageLimits)
    requires
        spec_check_generated_image(bytes, existing, limits) is Ok,
        spec_image_bytes(existing) + bytes.len() <= u64::MAX,
    ensures
        0 < bytes.len() <= limits.max_bytes,
        spec_image_media_type(bytes) is Some,
        spec_check_generated_image(bytes, existing, limits)->Ok_0 == spec_image_media_type(bytes)->0,
        spec_image_count(existing) < limits.max_count,
        spec_image_bytes(existing) + bytes.len() <= limits.max_total_bytes,
{
}

/// The fingerprint of a digest is `sha256:` followed by two lowercase hex
/// digits per byte.
pub proof fn law_fingerprint_length(digest: Seq<u8>)
    ensures
        spec_sha256_text(digest).len() == 7 + 2 * digest.len(),
    decreases digest.len(),
{
    reveal_strlit("sha256:");
    lemma_lower_hex_length(digest);
}

proof fn lemma_lower_hex_length(bytes: Seq<u8>)
    ensures
        spec_lower_hex(bytes).len() == 2 * bytes.len(),
    decreases bytes.len(),
{
    if bytes.len() > 0 {
        lemma_lower_hex_length(bytes.drop_last());
    }
}


/// Whether some receipt names the artifact `id`.
pub open spec fn spec_receipt_exists(receipt_artifact_ids: Seq<Option<String>>, id: Seq<char>) -> bool {
    exists|i: int| 0 <= i < receipt_artifact_ids.len() && spec_names_artifact(#[trigger] receipt_artifact_ids[i], id)
}

/// The receipt to create for a committed artifact, given the artifact ids
/// that the run's receipts of that kind already name: none when one of them
/// names this artifact, otherwise as [`spec_artifact_receipt`] says.
pub open spec fn spec_plan_artifact_receipt(
    run: RunRecord,
    artifact: ArtifactRecord,
    receipt_artifact_ids: Seq<Option<String>>,
    r: Option<CreateReceipt>,
) -> bool {
    if spec_receipt_exists(receipt_artifact_ids, artifact.id@) {
        r is None
    } else {
        spec_artifact_receipt(run, artifact, r)
    }
}

/// Decide the receipt for a committed artifact (see
/// [`spec_plan_artifact_receipt`]).
pub fn plan_artifact_receipt(run: &RunRecord, artifact: &ArtifactRecord, receipt_artifact_ids: &Vec<Option<String>>) -> (r:
    Option<CreateReceipt>)
    ensures
        spec_plan_artifact_receipt(*run, *artifact, receipt_artifact_ids@, r),
{
    if receipt_exists_for_artifact(receipt_artifact_ids, &artifact.id) {
        None
    } else {
        artifact_receipt_create_input(run, artifact)
    }
}

/// Receipts are created once per artifact: once the receipt created for an
/// artifact is listed among the run's receipts, deciding again creates none.
pub proof fn law_artifact_receipt_created_once(
    run: RunRecord,
    artifact: ArtifactRecord,
    receipt_artifact_ids: Seq<Option<String>>,
    recorded: String,
    r: Option<CreateReceipt>,
)
    requires
        recorded@ == artifact.id@,
        spec_plan_artifact_receipt(run, artifact, receipt_artifact_ids.push(Some(recorded)), r),
    ensures
        r is None,
{
    let ids = receipt_artifact_ids.push(Some(recorded));
    assert(spec_names_artifact(ids[receipt_artifact_ids.len() as int], artifact.id@));
}

/// Publishing under a live execution's lease agrees with publishing from
/// outside for a run that the live execution owns: a missing run is refused
/// alike, and both pass exactly when the run belongs to the artifact's
/// session and is running. They differ only in how a run of another session
/// is refused (as not live-owned under the lease).
pub proof fn law_leased_artifact_path_matches_record_artifact(
    artifact_run_id: RunId,
    artifact_session_id: SessionId,
    run: Option<RunRecord>,
    outside: Result<(), RunExecutionError>,
    leased: Result<(), RunExecutionError>,
)
    requires
        spec_artifact_preflight(artifact_run_id, artifact_session_id, run, true, outside),
        spec_leased_artifact_preflight(artifact_run_id, artifact_session_id, run, leased),
    ensures
        outside is Ok <==> leased is Ok,
        run is None ==> outside == leased,
        run matches Some(x) ==> (x.session_id == artifact_session_id && x.id == artifact_run_id && outside is Err
            ==> outside == leased),
{
}

} // verus!

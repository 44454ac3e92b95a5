//! Workspace files attached to a run's first message: the checks before a
//! run starts, the manifest that tells the provider about non-image files,
//! and the limits that image attachments must keep before dispatch.

use vstd::prelude::*;

use crate::artifacts::ImageLimits;
use crate::errors::RunExecutionError;
use crate::text::{append_decimal, spec_decimal, spec_hex_digit, spec_trim, trimmed};

verus! {

/// What kind of file an attachment is.
#[derive(Debug, Clone, Copy, PartialEq, Eq, Structural)]
pub enum WorkspaceFileKind {
    Text,
    Image,
}

/// A workspace file attached to a message, at a checked revision.
#[derive(Debug)]
pub struct WorkspaceFileAttachment {
    pub path: String,
    pub revision: String,
    pub kind: WorkspaceFileKind,
    pub byte_len: u64,
}

/// A requested attachment: a path at an expected revision.
#[derive(Debug)]
pub struct WorkspaceFileAttachmentRequest {
    pub path: String,
    pub expected_revision: String,
}

/// The serialized name of a file kind.
pub open spec fn spec_kind_label(kind: WorkspaceFileKind) -> Seq<char> {
    match kind {
        WorkspaceFileKind::Text => "text"@,
        WorkspaceFileKind::Image => "image"@,
    }
}

fn kind_label(kind: WorkspaceFileKind) -> (s: &'static str)
    ensures
        s@ == spec_kind_label(kind),
{
    match kind {
        WorkspaceFileKind::Text => "text",
        WorkspaceFileKind::Image => "image",
    }
}

/// How `serde_json` writes one character inside a string literal: `"` and
/// `\` behind a backslash; backspace, tab, line feed, form feed and carriage
/// return as `\b`, `\t`, `\n`, `\f`, `\r`; any other character below
/// U+0020 as `\u00` and two lowercase hex digits; every other character as
/// it is.
pub open spec fn spec_json_escape_char(c: char) -> Seq<char> {
    let u = c as u32;
    if c == '"' {
        seq!['\\', '"']
    } else if c == '\\' {
        seq!['\\', '\\']
    } else if u == 0x08 {
        seq!['\\', 'b']
    } else if u == 0x09 {
        seq!['\\', 't']
    } else if u == 0x0A {
        seq!['\\', 'n']
    } else if u == 0x0C {
        seq!['\\', 'f']
    } else if u == 0x0D {
        seq!['\\', 'r']
    } else if u < 0x20 {
        seq!['\\', 'u', '0', '0', spec_hex_digit((u / 16) as int), spec_hex_digit((u % 16) as int)]
    } else {
        seq![c]
    }
}

/// The characters of a text, each escaped as [`spec_json_escape_char`] says.
pub open spec fn spec_json_escaped(s: Seq<char>) -> Seq<char>
    decreases s.len(),
{
    if s.len() == 0 {
        Seq::empty()
    } else {
        spec_json_escaped(s.drop_last()) + spec_json_escape_char(s.last())
    }
}

/// The JSON string literal that `serde_json` writes for a text: the escaped
/// text between double quotes.
pub open spec fn spec_json_string(s: Seq<char>) -> Seq<char> {
    seq!['"'] + spec_json_escaped(s) + seq!['"']
}

/// `serde_json::to_string` on a `str`: the text as a JSON string literal,
/// quoted and escaped as [`spec_json_string`] says (the compact formatter's
/// escape table). Serializing a `str` into memory cannot fail.
#[verifier::external_body]
fn json_string(s: &str) -> (r: String)
    ensures
        r@ == spec_json_string(s@),
{
    serde_json::to_string(s).unwrap_or_default()
}

/// The manifest entry of an attachment: a JSON object with its size (as a
/// decimal string), kind, path and revision, keys in ascending order.
pub open spec fn spec_manifest_entry(a: WorkspaceFileAttachment) -> Seq<char> {
    "{\"byteLength\":"@ + spec_json_string(spec_decimal(a.byte_len as nat)) + ",\"kind\":"@ + spec_json_string(
        spec_kind_label(a.kind),
    ) + ",\"path\":"@ + spec_json_string(a.path@) + ",\"revision\":"@ + spec_json_string(a.revision@) + "}"@
}

/// The non-image attachments, in order.
pub open spec fn spec_manifest_files(attachments: Seq<WorkspaceFileAttachment>) -> Seq<WorkspaceFileAttachment> {
    attachments.filter(|a: WorkspaceFileAttachment| a.kind != WorkspaceFileKind::Image)
}

/// The entries of a list of attachments, separated by commas.
pub open spec fn spec_manifest_body(files: Seq<WorkspaceFileAttachment>) -> Seq<char>
    decreases files.len(),
{
    if files.len() == 0 {
        Seq::empty()
    } else if files.len() == 1 {
        spec_manifest_entry(files[0])
    } else {
        spec_manifest_body(files.drop_last()) + ","@ + spec_manifest_entry(files.last())
    }
}

/// The message a provider receives for a user's text: the text alone when
/// no non-image file is attached, otherwise the text followed by a blank
/// line and the JSON array of the non-image attachments inside
/// `<taugentic_workspace_attachments>` tags, each on its own line.
pub open spec fn spec_user_message(text: Seq<char>, attachments: Seq<WorkspaceFileAttachment>) -> Seq<char> {
    let files = spec_manifest_files(attachments);
    if files.len() == 0 {
        text
    } else {
        text + "\n\n<taugentic_workspace_attachments>\n["@ + spec_manifest_body(files)
            + "]\n</taugentic_workspace_attachments>"@
    }
}

fn append_entry(out: &mut String, a: &WorkspaceFileAttachment)
    ensures
        final(out)@ == old(out)@ + spec_manifest_entry(*a),
{
    let mut size = String::new();
    append_decimal(&mut size, a.byte_len);
    out.append("{\"byteLength\":");
    out.append(json_string(size.as_str()).as_str());
    out.append(",\"kind\":");
    out.append(json_string(kind_label(a.kind)).as_str());
    out.append(",\"path\":");
    out.append(json_string(a.path.as_str()).as_str());
    out.append(",\"revision\":");
    out.append(json_string(a.revision.as_str()).as_str());
    out.append("}");
    assert(size@ =~= spec_decimal(a.byte_len as nat));
    assert(final(out)@ =~= old(out)@ + spec_manifest_entry(*a));
}

/// The message a provider receives (see [`spec_user_message`]).
pub fn user_message_with_attachments(text: &str, attachments: &Vec<WorkspaceFileAttachment>) -> (m: String)
    ensures
        m@ == spec_user_message(text@, attachments@),
{
    broadcast use vstd::seq_lib::group_filter_ensures;
    let ghost pred = |a: WorkspaceFileAttachment| a.kind != WorkspaceFileKind::Image;
    let mut body = String::new();
    let mut count: usize = 0;
    let mut i: usize = 0;
    while i < attachments.len()
        invariant
            0 <= i <= attachments.len(),
            pred == |a: WorkspaceFileAttachment| a.kind != WorkspaceFileKind::Image,
            count == attachments@.take(i as int).filter(pred).len(),
            count <= i,
            body@ == spec_manifest_body(attachments@.take(i as int).filter(pred)),
        decreases attachments.len() - i,
    {
        let ghost prefix = attachments@.take(i as int);
        proof {
            assert(attachments@.take((i + 1) as int) == prefix.push(attachments@[i as int]));
            prefix.lemma_filter_push(attachments@[i as int], pred);
        }
        let a = &attachments[i];
        if a.kind != WorkspaceFileKind::Image {
            let ghost files = prefix.filter(pred);
            if count > 0 {
                body.append(",");
            }
            append_entry(&mut body, a);
            count = count + 1;
            proof {
                let next = files.push(*a);
                assert(next.drop_last() == files);
                if files.len() == 0 {
                    assert(body@ =~= spec_manifest_body(next));
                } else {
                    assert(body@ =~= spec_manifest_body(next));
                }
            }
        }
        i = i + 1;
    }
    assert(attachments@.take(attachments.len() as int) == attachments@);
    if count == 0 {
        return String::from_str(text);
    }
    let mut m = String::from_str(text);
    m.append("\n\n<taugentic_workspace_attachments>\n[");
    m.append(body.as_str());
    m.append("]\n</taugentic_workspace_attachments>");
    m
}

/// Whether the validated attachments are exactly the requested ones: the
/// same number, and each at the requested path and revision, in order.
pub open spec fn spec_attachments_agree(
    requests: Seq<WorkspaceFileAttachmentRequest>,
    attachments: Seq<WorkspaceFileAttachment>,
) -> bool {
    &&& requests.len() == attachments.len()
    &&& forall|i: int|
        #![trigger requests[i]]
        0 <= i < requests.len() ==> requests[i].path@ == attachments[i].path@ && requests[i].expected_revision@
            == attachments[i].revision@
}

/// Refuse attachments that the application boundary did not validate (see
/// [`spec_attachments_agree`]).
pub fn check_validated_attachments(
    requests: &Vec<WorkspaceFileAttachmentRequest>,
    attachments: &Vec<WorkspaceFileAttachment>,
) -> (r: Result<(), RunExecutionError>)
    ensures
        spec_attachments_agree(requests@, attachments@) ==> r is Ok,
        !spec_attachments_agree(requests@, attachments@) ==> r matches Err(
            RunExecutionError::UnvalidatedWorkspaceFileAttachments,
        ),
{
    if requests.len() != attachments.len() {
        return Err(RunExecutionError::UnvalidatedWorkspaceFileAttachments);
    }
    let mut i: usize = 0;
    while i < requests.len()
        invariant
            requests.len() == attachments.len(),
            0 <= i <= requests.len(),
            forall|k: int|
                #![trigger requests@[k]]
                0 <= k < i ==> requests@[k].path@ == attachments@[k].path@ && requests@[k].expected_revision@
                    == attachments@[k].revision@,
        decreases requests.len() - i,
    {
        let same_path = requests[i].path == attachments[i].path;
        let same_revision = requests[i].expected_revision == attachments[i].revision;
        if !same_path || !same_revision {
            return Err(RunExecutionError::UnvalidatedWorkspaceFileAttachments);
        }
        assert(requests@[i as int].path@ == attachments@[i as int].path@
            && requests@[i as int].expected_revision@ == attachments@[i as int].revision@);
        i = i + 1;
    }
    Ok(())
}

/// The objective a run starts with: the requested one trimmed; a blank one
/// is refused.
pub fn start_run_objective(objective: &str) -> (r: Result<String, RunExecutionError>)
    ensures
        spec_trim(objective@).len() == 0 ==> r matches Err(RunExecutionError::EmptyRunObjective),
        spec_trim(objective@).len() > 0 ==> (r matches Ok(o) && o@ == spec_trim(objective@)),
{
    let t = trimmed(objective);
    if t.as_str().unicode_len() == 0 {
        Err(RunExecutionError::EmptyRunObjective)
    } else {
        Ok(t)
    }
}

/// What the session says of the next run's selection.
#[derive(Debug, Clone, Copy, PartialEq, Eq, Structural)]
pub enum NextRunSelection {
    /// No selection was made yet.
    Unselected,
    /// A selection was made; `agrees` tells whether it is the run's.
    Selected { agrees: bool },
}

/// Whether the run's selection is to be stored as the session's: only when
/// the session exists and had none; a different stored selection is refused.
pub fn plan_start_selection(session_id: u64, session: Option<NextRunSelection>) -> (r: Result<bool, RunExecutionError>)
    ensures
        session is None ==> (r matches Err(RunExecutionError::SessionNotFound(s)) && s == session_id),
        session == Some(NextRunSelection::Unselected) ==> r == Ok::<bool, RunExecutionError>(true),
        session == Some(NextRunSelection::Selected { agrees: true }) ==> r == Ok::<bool, RunExecutionError>(false),
        session == Some(NextRunSelection::Selected { agrees: false }) ==> (r matches Err(
            RunExecutionError::ProviderExecutionFailed(m),
        ) && m@ == "run selection does not agree with the session's next-run selection"@),
{
    match session {
        None => Err(RunExecutionError::SessionNotFound(session_id)),
        Some(NextRunSelection::Unselected) => Ok(true),
        Some(NextRunSelection::Selected { agrees }) => if agrees {
            Ok(false)
        } else {
            Err(
                RunExecutionError::ProviderExecutionFailed(
                    String::from_str("run selection does not agree with the session's next-run selection"),
                ),
            )
        },
    }
}

/// Whether any attachment is an image.
pub open spec fn spec_has_image(attachments: Seq<WorkspaceFileAttachment>) -> bool {
    exists|i: int| 0 <= i < attachments.len() && #[trigger] attachments[i].kind == WorkspaceFileKind::Image
}

/// Refuse image attachments when the selected runtime takes no image input.
pub fn check_image_input(attachments: &Vec<WorkspaceFileAttachment>, image_input_supported: bool) -> (r: Result<
    (),
    RunExecutionError,
>)
    ensures
        spec_has_image(attachments@) && !image_input_supported ==> (r matches Err(
            RunExecutionError::ProviderExecutionFailed(m),
        ) && m@ == "the selected runtime does not support image input"@),
        !(spec_has_image(attachments@) && !image_input_supported) ==> r is Ok,
{
    let mut i: usize = 0;
    while i < attachments.len()
        invariant
            0 <= i <= attachments.len(),
            forall|k: int| 0 <= k < i ==> #[trigger] attachments@[k].kind != WorkspaceFileKind::Image,
        decreases attachments.len() - i,
    {
        if attachments[i].kind == WorkspaceFileKind::Image {
            if !image_input_supported {
                return Err(
                    RunExecutionError::ProviderExecutionFailed(
                        String::from_str("the selected runtime does not support image input"),
                    ),
                );
            }
            return Ok(());
        }
        i = i + 1;
    }
    Ok(())
}

/// What the workspace says of an image attachment just before dispatch:
/// its kind and size now, or the reason it could not be checked.
#[derive(Debug)]
pub enum CheckedAttachment {
    Checked { kind: WorkspaceFileKind, byte_len: u64 },
    Unreadable(String),
}

/// The first failure among the checked image attachments, with the
/// running total of their sizes (saturating) before it; `None` when all pass.
pub open spec fn spec_first_attachment_failure(checked: Seq<CheckedAttachment>, max_bytes: u64) -> Option<Seq<char>>
    decreases checked.len(),
{
    if checked.len() == 0 {
        None
    } else {
        match spec_first_attachment_failure(checked.drop_last(), max_bytes) {
            Some(m) => Some(m),
            None => match checked.last() {
                CheckedAttachment::Unreadable(m) => Some(m@),
                CheckedAttachment::Checked { kind, byte_len } => if kind != WorkspaceFileKind::Image || byte_len
                    > max_bytes {
                    Some("image attachment failed runtime preflight"@)
                } else {
                    None
                },
            },
        }
    }
}

/// The total size of checked attachments, saturating at `u64::MAX`.
pub open spec fn spec_checked_total(checked: Seq<CheckedAttachment>) -> u64
    decreases checked.len(),
{
    if checked.len() == 0 {
        0
    } else {
        let prev = spec_checked_total(checked.drop_last());
        match checked.last() {
            CheckedAttachment::Checked { byte_len, .. } => if prev + byte_len > u64::MAX {
                u64::MAX
            } else {
                (prev + byte_len) as u64
            },
            CheckedAttachment::Unreadable(_) => prev,
        }
    }
}

/// The preflight of a run's image attachments before dispatch: too many
/// images are refused first; then each image, in order, must still be
/// readable, be an image and keep the size limit; then the total (summed
/// with saturation) must keep the total limit.
pub open spec fn spec_image_preflight(image_count: nat, checked: Seq<CheckedAttachment>, limits: ImageLimits) -> Option<
    Seq<char>,
> {
    if image_count > limits.max_count {
        Some("image attachment count exceeds the runtime limit"@)
    } else {
        match spec_first_attachment_failure(checked, limits.max_bytes) {
            Some(m) => Some(m),
            None => if spec_checked_total(checked) > limits.max_total_bytes {
                Some("image attachment total exceeds the runtime limit"@)
            } else {
                None
            },
        }
    }
}

/// Check a run's image attachments before dispatch (see
/// [`spec_image_preflight`]); `checked` holds what the workspace says of
/// each image attachment, in order.
pub fn preflight_image_attachments(checked: &Vec<CheckedAttachment>, limits: ImageLimits) -> (r: Result<
    (),
    RunExecutionError,
>)
    ensures
        match spec_image_preflight(checked@.len(), checked@, limits) {
            Some(m) => r matches Err(RunExecutionError::ProviderExecutionFailed(e)) && e@ == m,
            None => r is Ok,
        },
{
    proof {
        reveal_strlit("image attachment count exceeds the runtime limit");
        reveal_strlit("image attachment total exceeds the runtime limit");
    }
    if checked.len() > limits.max_count {
        return Err(
            RunExecutionError::ProviderExecutionFailed(String::from_str("image attachment count exceeds the runtime limit")),
        );
    }
    let mut total: u64 = 0;
    let mut i: usize = 0;
    while i < checked.len()
        invariant
            0 <= i <= checked.len(),
            checked@.len() <= limits.max_count,
            spec_first_attachment_failure(checked@.take(i as int), limits.max_bytes) is None,
            total == spec_checked_total(checked@.take(i as int)),
        decreases checked.len() - i,
    {
        assert(checked@.take((i + 1) as int).drop_last() == checked@.take(i as int));
        assert(checked@.take((i + 1) as int).last() == checked@[i as int]);
        match &checked[i] {
            CheckedAttachment::Unreadable(m) => {
                let e = m.clone();
                proof {
                    assert(checked@[i as int] matches CheckedAttachment::Unreadable(x) && x@ == e@);
                    assert(spec_first_attachment_failure(checked@.take((i + 1) as int), limits.max_bytes) == Some(e@));
                    lemma_failure_persists(checked@, (i + 1) as int, limits.max_bytes);
                    assert(spec_first_attachment_failure(checked@, limits.max_bytes) == Some(e@));
                    assert(!(checked@.len() > limits.max_count));
                }
                return Err(RunExecutionError::ProviderExecutionFailed(e));
            },
            CheckedAttachment::Checked { kind, byte_len } => {
                if *kind != WorkspaceFileKind::Image || *byte_len > limits.max_bytes {
                    proof {
                        reveal_strlit("image attachment failed runtime preflight");
                        lemma_failure_persists(checked@, (i + 1) as int, limits.max_bytes);
                    }
                    return Err(
                        RunExecutionError::ProviderExecutionFailed(
                            String::from_str("image attachment failed runtime preflight"),
                        ),
                    );
                }
                total = total.saturating_add(*byte_len);
            },
        }
        i = i + 1;
    }
    assert(checked@.take(checked.len() as int) == checked@);
    if total > limits.max_total_bytes {
        return Err(
            RunExecutionError::ProviderExecutionFailed(String::from_str("image attachment total exceeds the runtime limit")),
        );
    }
    Ok(())
}

proof fn lemma_failure_persists(checked: Seq<CheckedAttachment>, n: int, max_bytes: u64)
    requires
        0 <= n <= checked.len(),
        spec_first_attachment_failure(checked.take(n), max_bytes) is Some,
    ensures
        spec_first_attachment_failure(checked, max_bytes) == spec_first_attachment_failure(checked.take(n), max_bytes),
    decreases checked.len(),
{
    if n < checked.len() {
        assert(checked.drop_last().take(n) == checked.take(n));
        lemma_failure_persists(checked.drop_last(), n, max_bytes);
    } else {
        assert(checked.take(n) == checked);
    }
}

/// Image attachments never reach the message text: when every attachment is
/// an image, the provider receives the user's text unchanged, and otherwise
/// the text is followed by the manifest.
pub proof fn law_images_leave_message_text_alone(text: Seq<char>, attachments: Seq<WorkspaceFileAttachment>)
    ensures
        (forall|i: int| 0 <= i < attachments.len() ==> #[trigger] attachments[i].kind == WorkspaceFileKind::Image)
            ==> spec_user_message(text, attachments) == text,
        spec_user_message(text, attachments).subrange(0, text.len() as int) == text,
{
    broadcast use vstd::seq_lib::group_filter_ensures;
    let files = spec_manifest_files(attachments);
    if forall|i: int| 0 <= i < attachments.len() ==> #[trigger] attachments[i].kind == WorkspaceFileKind::Image {
        if files.len() > 0 {
            let pred = |a: WorkspaceFileAttachment| a.kind != WorkspaceFileKind::Image;
            attachments.lemma_filter_pred(pred, 0);
            assert(files.contains(files[0]));
            attachments.lemma_filter_contains_rev(pred, files[0]);
            let j = choose|j: int| 0 <= j < attachments.len() && attachments[j] == files[0];
            assert(attachments[j].kind == WorkspaceFileKind::Image);
        }
    }
    assert(spec_user_message(text, attachments).subrange(0, text.len() as int) =~= text);
}

} // verus!

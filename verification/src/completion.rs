//! Completing a run: checking its result against its output contract, the
//! terminal outcome that follows, and the completion receipt it leaves.

use vstd::prelude::*;

use crate::artifacts::ReceiptKind;
use crate::events::{EventPayload, EventRecord};
use crate::run::{OutputContractKind, RunId, RunRecord, RunSource, RunStatus, spec_budget_parent, parent_run_id};
use crate::text::{append_decimal, spec_decimal};

verus! {

/// Whether a completion receipt is promoted into context or quarantined.
#[derive(Debug, Clone, Copy, PartialEq, Eq, Structural)]
pub enum CompletionReceiptState {
    Promoted,
    Quarantined,
}

/// The name of an output contract kind in completion texts.
pub open spec fn spec_completion_label(kind: OutputContractKind) -> Seq<char> {
    match kind {
        OutputContractKind::Debug => "Debug"@,
        OutputContractKind::Patch => "Patch"@,
        OutputContractKind::Review => "Review"@,
        OutputContractKind::Test => "Test"@,
        OutputContractKind::Plan => "Plan"@,
        OutputContractKind::Custom => "Custom"@,
    }
}

/// The name of an output contract kind in completion texts.
pub fn completion_label(kind: OutputContractKind) -> (s: &'static str)
    ensures
        s@ == spec_completion_label(kind),
{
    match kind {
        OutputContractKind::Debug => "Debug",
        OutputContractKind::Patch => "Patch",
        OutputContractKind::Review => "Review",
        OutputContractKind::Test => "Test",
        OutputContractKind::Plan => "Plan",
        OutputContractKind::Custom => "Custom",
    }
}

/// The receipt kind of a result under an output contract.
pub open spec fn spec_receipt_kind_for_contract(contract: OutputContractKind) -> ReceiptKind {
    match contract {
        OutputContractKind::Debug => ReceiptKind::Summary,
        OutputContractKind::Patch => ReceiptKind::Patch,
        OutputContractKind::Review => ReceiptKind::ReviewFinding,
        OutputContractKind::Test => ReceiptKind::TestOutput,
        OutputContractKind::Plan => ReceiptKind::Summary,
        OutputContractKind::Custom => ReceiptKind::Artifact,
    }
}

/// The receipt kind of a result under an output contract.
pub fn receipt_kind_for_contract(contract: OutputContractKind) -> (k: ReceiptKind)
    ensures
        k == spec_receipt_kind_for_contract(contract),
{
    match contract {
        OutputContractKind::Debug => ReceiptKind::Summary,
        OutputContractKind::Patch => ReceiptKind::Patch,
        OutputContractKind::Review => ReceiptKind::ReviewFinding,
        OutputContractKind::Test => ReceiptKind::TestOutput,
        OutputContractKind::Plan => ReceiptKind::Summary,
        OutputContractKind::Custom => ReceiptKind::Artifact,
    }
}

/// The outcome of checking a completion: a run without an output contract
/// always passes; a run with one needs a result, which must pass the check
/// against the contract (`result_check`, `None` when no result was given).
/// A missing result fails with a message naming the contract.
pub open spec fn spec_validate_completion(
    output_contract: Option<OutputContractKind>,
    result_check: Option<Result<(), Seq<char>>>,
) -> Result<(), Seq<char>> {
    match (output_contract, result_check) {
        (Some(_), Some(check)) => check,
        (Some(contract), None) => Err(
            "output contract "@ + spec_completion_label(contract) + " requires a matching CapsuleResult"@,
        ),
        (None, _) => Ok(()),
    }
}

/// The view of a check outcome.
pub open spec fn spec_check_view(r: Result<(), String>) -> Result<(), Seq<char>> {
    match r {
        Ok(()) => Ok(()),
        Err(m) => Err(m@),
    }
}

/// Check a completion against the run's output contract (see
/// [`spec_validate_completion`]); `result_check` is the outcome of checking
/// the given result against the contract.
pub fn validate_completion_payload(
    output_contract: Option<OutputContractKind>,
    result_check: Option<Result<(), String>>,
) -> (r: Result<(), String>)
    ensures
        spec_check_view(r) == spec_validate_completion(
            output_contract,
            match result_check {
                Some(c) => Some(spec_check_view(c)),
                None => None,
            },
        ),
{
    match (output_contract, result_check) {
        (Some(_), Some(check)) => check,
        (Some(contract), None) => {
            let m = String::from_str("output contract ").concat(completion_label(contract)).concat(
                " requires a matching CapsuleResult",
            );
            Err(m)
        },
        (None, _) => Ok(()),
    }
}

/// The sequence of the first event that completes or fails a run.
pub open spec fn spec_completion_event_sequence(records: Seq<EventRecord>) -> Option<u64>
    decreases records.len(),
{
    if records.len() == 0 {
        None
    } else {
        match records[0].payload {
            EventPayload::Run { status, .. } => if status == RunStatus::Completed || status == RunStatus::Failed {
                Some(records[0].sequence)
            } else {
                spec_completion_event_sequence(records.drop_first())
            },
            _ => spec_completion_event_sequence(records.drop_first()),
        }
    }
}

/// The sequence of the first event that completes or fails a run.
pub fn completion_event_sequence(records: &Vec<EventRecord>) -> (s: Option<u64>)
    ensures
        s == spec_completion_event_sequence(records@),
{
    let mut i: usize = 0;
    assert(records@.skip(0) == records@);
    while i < records.len()
        invariant
            0 <= i <= records.len(),
            spec_completion_event_sequence(records@) == spec_completion_event_sequence(records@.skip(i as int)),
        decreases records.len() - i,
    {
        assert(records@.skip(i as int).drop_first() == records@.skip((i + 1) as int));
        assert(records@.skip(i as int)[0] == records@[i as int]);
        match records[i].payload {
            EventPayload::Run { status, .. } => {
                if status == RunStatus::Completed || status == RunStatus::Failed {
                    return Some(records[i].sequence);
                }
            },
            _ => {},
        }
        i = i + 1;
    }
    assert(records@.skip(i as int).len() == 0);
    None
}

/// The summary of a completion receipt: `label` names the run's contract,
/// `result_kind` the contract kind of the returned result, if any.
pub open spec fn spec_completion_receipt_summary(
    label: Seq<char>,
    result_kind: Option<OutputContractKind>,
    state: CompletionReceiptState,
) -> Seq<char> {
    match (state, result_kind) {
        (CompletionReceiptState::Promoted, Some(k)) => spec_completion_label(k)
            + " CapsuleResult returned from native run"@,
        (CompletionReceiptState::Quarantined, Some(k)) => spec_completion_label(k)
            + " CapsuleResult quarantined after daemon validation"@,
        (CompletionReceiptState::Quarantined, None) => label + " CapsuleResult missing from native run"@,
        (CompletionReceiptState::Promoted, None) => label + " completion result"@,
    }
}

/// The summary of a completion receipt (see [`spec_completion_receipt_summary`]).
pub fn completion_receipt_summary(
    label: &str,
    result_kind: Option<OutputContractKind>,
    state: CompletionReceiptState,
) -> (s: String)
    ensures
        s@ == spec_completion_receipt_summary(label@, result_kind, state),
{
    match (state, result_kind) {
        (CompletionReceiptState::Promoted, Some(k)) => String::from_str(completion_label(k)).concat(
            " CapsuleResult returned from native run",
        ),
        (CompletionReceiptState::Quarantined, Some(k)) => String::from_str(completion_label(k)).concat(
            " CapsuleResult quarantined after daemon validation",
        ),
        (CompletionReceiptState::Quarantined, None) => String::from_str(label).concat(
            " CapsuleResult missing from native run",
        ),
        (CompletionReceiptState::Promoted, None) => String::from_str(label).concat(" completion result"),
    }
}

/// A completion receipt to create.
#[derive(Debug)]
pub struct CompletionReceipt {
    pub kind: ReceiptKind,
    pub parent_run_id: Option<RunId>,
    /// The parent turn that spawned a native subagent.
    pub agent_turn_id: Option<u64>,
    /// The completion event's sequence, recorded beside an agent turn.
    pub event_seq: Option<u64>,
    pub stream_cursor: String,
    pub title: String,
    pub summary: String,
}

/// The parent turn of a native subagent run.
pub open spec fn spec_agent_turn(source: RunSource) -> Option<u64> {
    match source {
        RunSource::NativeSubagent { parent_turn_id, .. } => Some(parent_turn_id),
        _ => None,
    }
}

/// The receipt that a completion leaves: none unless a result or a contract
/// gives it a kind (the result's contract first) and a label (the run's
/// contract first); it carries the run's budget parent, the subagent's
/// parent turn with the event sequence, a cursor `run:<id>:event:<seq>`, the
/// title `<label> result` and the summary of
/// [`spec_completion_receipt_summary`].
pub open spec fn spec_completion_receipt(
    run: RunRecord,
    event_seq: u64,
    output_contract: Option<OutputContractKind>,
    result_kind: Option<OutputContractKind>,
    state: CompletionReceiptState,
    r: Option<CompletionReceipt>,
) -> bool {
    let kind = match result_kind {
        Some(k) => Some(spec_receipt_kind_for_contract(k)),
        None => match output_contract {
            Some(c) => Some(spec_receipt_kind_for_contract(c)),
            None => None,
        },
    };
    let label_kind = match output_contract {
        Some(c) => Some(c),
        None => result_kind,
    };
    match (kind, label_kind) {
        (Some(kind), Some(lk)) => r matches Some(c) && {
            let label = spec_completion_label(lk);
            &&& c.kind == kind
            &&& c.parent_run_id == spec_budget_parent(run.source)
            &&& c.agent_turn_id == spec_agent_turn(run.source)
            &&& c.event_seq == (if spec_agent_turn(run.source) is Some {
                Some(event_seq)
            } else {
                None
            })
            &&& c.stream_cursor@ == "run:"@ + spec_decimal(run.id as nat) + ":event:"@ + spec_decimal(
                event_seq as nat,
            )
            &&& c.title@ == label + " result"@
            &&& c.summary@ == spec_completion_receipt_summary(label, result_kind, state)
        },
        _ => r is None,
    }
}

/// The receipt that a completion leaves (see [`spec_completion_receipt`]);
/// `result_kind` is the contract kind of the returned result, if any.
pub fn completion_receipt(
    run: &RunRecord,
    event_seq: u64,
    output_contract: Option<OutputContractKind>,
    result_kind: Option<OutputContractKind>,
    state: CompletionReceiptState,
) -> (r: Option<CompletionReceipt>)
    ensures
        spec_completion_receipt(*run, event_seq, output_contract, result_kind, state, r),
{
    let kind = match result_kind {
        Some(k) => receipt_kind_for_contract(k),
        None => match output_contract {
            Some(c) => receipt_kind_for_contract(c),
            None => {
                return None;
            },
        },
    };
    let label_kind = match output_contract {
        Some(c) => c,
        None => match result_kind {
            Some(k) => k,
            None => {
                return None;
            },
        },
    };
    let label = completion_label(label_kind);
    let agent_turn_id = match &run.source {
        RunSource::NativeSubagent { parent_turn_id, .. } => Some(*parent_turn_id),
        _ => None,
    };
    let event_seq_field = match agent_turn_id {
        Some(_) => Some(event_seq),
        None => None,
    };
    let mut cursor = String::from_str("run:");
    append_decimal(&mut cursor, run.id);
    cursor.append(":event:");
    append_decimal(&mut cursor, event_seq);
    Some(
        CompletionReceipt {
            kind,
            parent_run_id: parent_run_id(run),
            agent_turn_id,
            event_seq: event_seq_field,
            stream_cursor: cursor,
            title: String::from_str(label).concat(" result"),
            summary: completion_receipt_summary(label, result_kind, state),
        },
    )
}

/// The reason a run fails when its after-turn checkpoint cannot be captured.
pub open spec fn spec_checkpoint_failure_reason() -> Seq<char> {
    "Run failed because the after-turn Git checkpoint could not be captured"@
}

/// How a completion ends the run.
#[derive(Debug)]
pub struct CompletionPlan {
    /// The terminal status.
    pub status: RunStatus,
    /// The reason recorded with the terminal status.
    pub reason: String,
    /// The output contract and result stay on the terminal event and the
    /// run's completion; otherwise both are dropped.
    pub keep_result: bool,
    /// The contract violation recorded on the run.
    pub contract_violation: Option<String>,
    /// The completion receipt's state, when one is written.
    pub receipt_state: Option<CompletionReceiptState>,
    /// The caller is answered with an output-contract violation carrying
    /// this message, after the terminal commit.
    pub violation_error: Option<String>,
    /// The caller is answered with the checkpoint failure.
    pub checkpoint_error: bool,
}

/// The view of an optional text.
pub open spec fn spec_opt_text(s: Option<String>) -> Option<Seq<char>> {
    match s {
        Some(t) => Some(t@),
        None => None,
    }
}

/// How an externally requested completion ends the run: a passing check
/// completes it with the caller's detail and a promoted receipt; a failing
/// one fails it with the violation and a quarantined receipt, answering
/// with the violation; and a checkpoint that cannot be captured fails it
/// instead, dropping the result, quarantining the receipt and answering
/// with the checkpoint failure.
pub open spec fn spec_current_completion(
    validation: Result<(), Seq<char>>,
    checkpoint_captured: bool,
    detail: Seq<char>,
    p: CompletionPlan,
) -> bool {
    if !checkpoint_captured {
        &&& p.status == RunStatus::Failed
        &&& p.reason@ == spec_checkpoint_failure_reason()
        &&& !p.keep_result
        &&& p.contract_violation is None
        &&& p.receipt_state == Some(CompletionReceiptState::Quarantined)
        &&& p.violation_error is None
        &&& p.checkpoint_error
    } else {
        match validation {
            Ok(()) => {
                &&& p.status == RunStatus::Completed
                &&& p.reason@ == detail
                &&& p.keep_result
                &&& p.contract_violation is None
                &&& p.receipt_state == Some(CompletionReceiptState::Promoted)
                &&& p.violation_error is None
                &&& !p.checkpoint_error
            },
            Err(e) => {
                &&& p.status == RunStatus::Failed
                &&& p.reason@ == e
                &&& p.keep_result
                &&& spec_opt_text(p.contract_violation) == Some(e)
                &&& p.receipt_state == Some(CompletionReceiptState::Quarantined)
                &&& spec_opt_text(p.violation_error) == Some(e)
                &&& !p.checkpoint_error
            },
        }
    }
}

fn checkpoint_failure_reason() -> (s: String)
    ensures
        s@ == spec_checkpoint_failure_reason(),
{
    String::from_str("Run failed because the after-turn Git checkpoint could not be captured")
}

fn copy_text(s: &String) -> (t: String)
    ensures
        t@ == s@,
{
    s.clone()
}

/// Decide how an externally requested completion ends the run (see
/// [`spec_current_completion`]).
pub fn plan_current_completion(validation: Result<(), String>, checkpoint_captured: bool, detail: String) -> (p:
    CompletionPlan)
    ensures
        spec_current_completion(spec_check_view(validation), checkpoint_captured, detail@, p),
{
    if !checkpoint_captured {
        return CompletionPlan {
            status: RunStatus::Failed,
            reason: checkpoint_failure_reason(),
            keep_result: false,
            contract_violation: None,
            receipt_state: Some(CompletionReceiptState::Quarantined),
            violation_error: None,
            checkpoint_error: true,
        };
    }
    match validation {
        Ok(()) => CompletionPlan {
            status: RunStatus::Completed,
            reason: detail,
            keep_result: true,
            contract_violation: None,
            receipt_state: Some(CompletionReceiptState::Promoted),
            violation_error: None,
            checkpoint_error: false,
        },
        Err(e) => CompletionPlan {
            status: RunStatus::Failed,
            reason: copy_text(&e),
            keep_result: true,
            contract_violation: Some(copy_text(&e)),
            receipt_state: Some(CompletionReceiptState::Quarantined),
            violation_error: Some(e),
            checkpoint_error: false,
        },
    }
}

/// How a completion that a live execution reports under its lease ends the
/// run: a failing check fails it with the violation, a quarantined receipt
/// and a violation answer, before any checkpoint is taken; a passing check
/// completes it with a promoted receipt when the checkpoint is captured, and
/// otherwise fails it without result, receipt or error.
pub open spec fn spec_leased_completion(
    validation: Result<(), Seq<char>>,
    checkpoint_captured: bool,
    detail: Seq<char>,
    p: CompletionPlan,
) -> bool {
    match validation {
        Err(e) => {
            &&& p.status == RunStatus::Failed
            &&& p.reason@ == e
            &&& p.keep_result
            &&& spec_opt_text(p.contract_violation) == Some(e)
            &&& p.receipt_state == Some(CompletionReceiptState::Quarantined)
            &&& spec_opt_text(p.violation_error) == Some(e)
            &&& !p.checkpoint_error
        },
        Ok(()) => if checkpoint_captured {
            &&& p.status == RunStatus::Completed
            &&& p.reason@ == detail
            &&& p.keep_result
            &&& p.contract_violation is None
            &&& p.receipt_state == Some(CompletionReceiptState::Promoted)
            &&& p.violation_error is None
            &&& !p.checkpoint_error
        } else {
            &&& p.status == RunStatus::Failed
            &&& p.reason@ == spec_checkpoint_failure_reason()
            &&& !p.keep_result
            &&& p.contract_violation is None
            &&& p.receipt_state is None
            &&& p.violation_error is None
            &&& !p.checkpoint_error
        },
    }
}

/// Decide how a leased completion ends the run (see [`spec_leased_completion`]);
/// `checkpoint_captured` is consulted only after a passing check.
pub fn plan_leased_completion(validation: Result<(), String>, checkpoint_captured: bool, detail: String) -> (p:
    CompletionPlan)
    ensures
        spec_leased_completion(spec_check_view(validation), checkpoint_captured, detail@, p),
{
    match validation {
        Err(e) => CompletionPlan {
            status: RunStatus::Failed,
            reason: copy_text(&e),
            keep_result: true,
            contract_violation: Some(copy_text(&e)),
            receipt_state: Some(CompletionReceiptState::Quarantined),
            violation_error: Some(e),
            checkpoint_error: false,
        },
        Ok(()) => if checkpoint_captured {
            CompletionPlan {
                status: RunStatus::Completed,
                reason: detail,
                keep_result: true,
                contract_violation: None,
                receipt_state: Some(CompletionReceiptState::Promoted),
                violation_error: None,
                checkpoint_error: false,
            }
        } else {
            CompletionPlan {
                status: RunStatus::Failed,
                reason: checkpoint_failure_reason(),
                keep_result: false,
                contract_violation: None,
                receipt_state: None,
                violation_error: None,
                checkpoint_error: false,
            }
        },
    }
}

/// The result stored on a run when it ends: the reported result, unless
/// the completion carries a contract violation.
pub fn projected_result<T>(contract_violation: &Option<String>, result: Option<T>) -> (r: Option<T>)
    ensures
        contract_violation is None ==> r == result,
        contract_violation is Some ==> r is None,
{
    match contract_violation {
        None => result,
        Some(_) => None,
    }
}

/// A completion never both completes the run and reports a violation:
/// either plan completes the run exactly when the check passes and the
/// checkpoint is captured, and a completed run's receipt is promoted.
pub proof fn law_completion_completes_only_valid_results(
    validation: Result<(), Seq<char>>,
    checkpoint_captured: bool,
    detail: Seq<char>,
    current: CompletionPlan,
    leased: CompletionPlan,
)
    requires
        spec_current_completion(validation, checkpoint_captured, detail, current),
        spec_leased_completion(validation, checkpoint_captured, detail, leased),
    ensures
        (current.status == RunStatus::Completed) <==> (validation is Ok && checkpoint_captured),
        (leased.status == RunStatus::Completed) <==> (validation is Ok && checkpoint_captured),
        current.status == RunStatus::Completed ==> current.receipt_state == Some(CompletionReceiptState::Promoted)
            && current.violation_error is None,
        leased.status == RunStatus::Completed ==> leased.receipt_state == Some(CompletionReceiptState::Promoted)
            && leased.violation_error is None,
{
}

} // verus!

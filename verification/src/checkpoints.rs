//! Git checkpoints around a user's turn: which runs get one, under which
//! name, and what a workspace that is not a repository means for each phase.

use vstd::prelude::*;

use crate::errors::RunExecutionError;
use crate::run::{RunId, RunRecord, RunSource};
use crate::text::{append_decimal, spec_decimal};

verus! {

/// When in a user's turn a checkpoint is taken.
#[derive(Debug, Clone, Copy, PartialEq, Eq, Structural)]
pub enum GitCheckpointPhase {
    BeforeTurn,
    AfterTurn,
}

/// The revision a phase's checkpoint is recorded under: the turn's start is
/// revision 0, its end revision 1.
pub open spec fn spec_checkpoint_revision(phase: GitCheckpointPhase) -> u64 {
    match phase {
        GitCheckpointPhase::BeforeTurn => 0,
        GitCheckpointPhase::AfterTurn => 1,
    }
}

/// The revision a phase's checkpoint is recorded under.
pub fn checkpoint_revision(phase: GitCheckpointPhase) -> (r: u64)
    ensures
        r == spec_checkpoint_revision(phase),
{
    match phase {
        GitCheckpointPhase::BeforeTurn => 0,
        GitCheckpointPhase::AfterTurn => 1,
    }
}

/// The name of a run's checkpoint for a phase: `checkpoint-<run>-before` or
/// `checkpoint-<run>-after`.
pub open spec fn spec_checkpoint_id(run_id: RunId, phase: GitCheckpointPhase) -> Seq<char> {
    "checkpoint-"@ + spec_decimal(run_id as nat) + match phase {
        GitCheckpointPhase::BeforeTurn => "-before"@,
        GitCheckpointPhase::AfterTurn => "-after"@,
    }
}

/// The name of a run's checkpoint for a phase (see [`spec_checkpoint_id`]).
pub fn checkpoint_id(run_id: RunId, phase: GitCheckpointPhase) -> (id: String)
    ensures
        id@ == spec_checkpoint_id(run_id, phase),
{
    let mut id = String::from_str("checkpoint-");
    append_decimal(&mut id, run_id);
    match phase {
        GitCheckpointPhase::BeforeTurn => id.append("-before"),
        GitCheckpointPhase::AfterTurn => id.append("-after"),
    }
    id
}

/// Whether a run gets a checkpoint for `phase`: only runs that a user
/// started, and only once per revision.
pub open spec fn spec_checkpoint_due(run: RunRecord, phase: GitCheckpointPhase, recorded: Seq<u64>) -> bool {
    &&& run.source is User
    &&& !recorded.contains(spec_checkpoint_revision(phase))
}

/// The checkpoint to capture for a run's phase, given the revisions already
/// recorded for the run: `None` when none is due (see
/// [`spec_checkpoint_due`]), else its name and revision.
pub fn plan_user_turn_checkpoint(run: &RunRecord, phase: GitCheckpointPhase, recorded: &Vec<u64>) -> (plan:
    Option<(String, u64)>)
    ensures
        plan is None <==> !spec_checkpoint_due(*run, phase, recorded@),
        plan matches Some((id, revision)) ==> id@ == spec_checkpoint_id(run.id, phase) && revision
            == spec_checkpoint_revision(phase),
{
    match &run.source {
        RunSource::User { .. } => {},
        _ => return None,
    }
    let revision = checkpoint_revision(phase);
    let mut i: usize = 0;
    while i < recorded.len()
        invariant
            0 <= i <= recorded.len(),
            revision == spec_checkpoint_revision(phase),
            forall|k: int| 0 <= k < i ==> recorded@[k] != revision,
        decreases recorded.len() - i,
    {
        if recorded[i] == revision {
            assert(recorded@.contains(revision));
            return None;
        }
        i = i + 1;
    }
    Some((checkpoint_id(run.id, phase), revision))
}

/// Whether the turn's end is checkpointed: only when its start was.
pub fn after_turn_checkpoint_due(recorded_phases: &Vec<GitCheckpointPhase>) -> (due: bool)
    ensures
        due == recorded_phases@.contains(GitCheckpointPhase::BeforeTurn),
{
    let mut i: usize = 0;
    while i < recorded_phases.len()
        invariant
            0 <= i <= recorded_phases.len(),
            forall|k: int| 0 <= k < i ==> recorded_phases@[k] != GitCheckpointPhase::BeforeTurn,
        decreases recorded_phases.len() - i,
    {
        if recorded_phases[i] == GitCheckpointPhase::BeforeTurn {
            assert(recorded_phases@[i as int] == GitCheckpointPhase::BeforeTurn);
            return true;
        }
        i = i + 1;
    }
    false
}

/// What a workspace that is not a Git repository means: no checkpoint at a
/// turn's start (`Ok`), a failure at its end, since the start was
/// checkpointed in a repository.
pub fn missing_repository_outcome(phase: GitCheckpointPhase) -> (r: Result<(), RunExecutionError>)
    ensures
        phase == GitCheckpointPhase::BeforeTurn <==> r is Ok,
        r matches Err(RunExecutionError::CheckpointFailed(d)) ==> d@ == "the workspace is no longer a Git repository"@,
        r is Err ==> r->Err_0 is CheckpointFailed,
{
    match phase {
        GitCheckpointPhase::BeforeTurn => Ok(()),
        GitCheckpointPhase::AfterTurn => Err(
            RunExecutionError::CheckpointFailed(String::from_str("the workspace is no longer a Git repository")),
        ),
    }
}

} // verus!

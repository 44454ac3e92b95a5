//! The durable event records that the orchestration logic reads back.

use vstd::prelude::*;

use crate::run::{RunId, RunStatus};

verus! {

/// Identifier of a stream turn or item.
pub type StreamItemKey = u64;

/// A frame of an agent's output stream.
#[derive(Debug, Clone, Copy, PartialEq, Eq, Structural)]
pub enum StreamFrame {
    AssistantTurnStarted,
    AssistantMessageDelta,
    AssistantTurnCompleted,
    ToolCallStarted,
    ToolCallProgressed,
    ToolCallCompleted,
    PendingStateChanged,
    TokenUsageUpdated { total_tokens: Option<u64> },
}

/// A stream frame with the turn and item it belongs to.
#[derive(Debug, Clone, Copy, PartialEq, Eq, Structural)]
pub struct StreamEmission {
    pub turn_id: Option<StreamItemKey>,
    pub item_id: Option<StreamItemKey>,
    pub frame: StreamFrame,
}

/// What a durable event says.
#[derive(Debug, Clone, Copy, PartialEq, Eq, Structural)]
pub enum EventPayload {
    /// A frame of a run's agent stream.
    AgentStream { run_id: RunId, emission: StreamEmission },
    /// A status change of a run.
    Run { run_id: RunId, status: RunStatus },
    /// Any other event (approvals, artifacts, receipts, conflicts, budgets).
    Other,
}

/// A durable event with its position in the log.
#[derive(Debug, Clone, Copy, PartialEq, Eq, Structural)]
pub struct EventRecord {
    pub sequence: u64,
    pub payload: EventPayload,
}

} // verus!

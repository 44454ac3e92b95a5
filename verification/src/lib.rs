//! Verified orchestration logic for agent runs: scheduling, live-execution
//! ownership, budgets, execution-policy compilation, fork boundaries and the
//! state transitions that runs go through.

pub mod run;
pub mod scheduler;
pub mod active_execution;
pub mod events;
pub mod budget;
pub mod execution_policy;
pub mod fork;
pub mod errors;
pub mod text;
pub mod transitions;
pub mod artifacts;
pub mod completion;
pub mod voice;
pub mod claims;
pub mod workspace;
pub mod attachments;
pub mod lineage;
pub mod checkpoints;
pub mod turn_rows;
pub mod recipes;
pub mod spawn;

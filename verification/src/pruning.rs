//! Keeping a conversation within its limits: scoring turns, grouping tool
//! calls with their results, choosing what to prune and applying the choice.
use vstd::prelude::*;

pub mod evaluator;
pub mod pruner;
pub mod scorer;

verus! {

/// What to do with a turn chosen for pruning.
#[derive(Debug, Clone, Copy, PartialEq, Eq, Structural)]
pub enum PruneAction {
    /// Save it to memory, then drop it.
    Persist,
    /// Fold it into a summary.
    Summarize,
    /// Save it and fold it into a summary.
    Both,
    /// Drop it.
    Drop,
}

/// The decision taken for one candidate turn.
#[derive(Debug, PartialEq, Eq)]
pub struct PruneDecision {
    pub index: usize,
    pub action: PruneAction,
    pub memory_key: Option<String>,
    pub reason: String,
}

/// The prune score of a turn.
///
/// `score` is an ordering key: it orders scores as the scores themselves are
/// ordered (the scorer hands in the bit pattern of a non-negative float, whose
/// integer order is the order of the values), and it is `0` exactly when the
/// score is zero.
#[derive(Debug, Clone, Copy, PartialEq, Eq, Structural)]
pub struct ScoredMessage {
    pub index: usize,
    pub score: u64,
    pub tool_chain_start: Option<usize>,
}

/// A tool invocation together with the tool results that answer it.
#[derive(Debug, PartialEq, Eq)]
pub struct ToolChain {
    pub start_index: usize,
    pub end_index: usize,
    pub tool_call_ids: Vec<String>,
}

} // verus!

//! State that the enforcement sites of one sandbox share.

use vstd::prelude::*;

use crate::log::{DecisionLog, LogView};
use crate::types::{
    self, DEFAULT_DECISION_BUFFER_CAPACITY, MAX_DECISION_BUFFER_CAPACITY,
    MIN_DECISION_BUFFER_CAPACITY,
};

verus! {

/// State that the enforcement sites of one sandbox share.
pub struct SharedState {
    /// Capacity of the packet queues.
    pub queue_capacity: usize,
    /// The decisions recorded so far.
    pub decisions: DecisionLog,
}

impl SharedState {
    /// State with a decision log of the default capacity.
    pub fn new(queue_capacity: usize) -> (shared: Self)
        ensures
            shared.queue_capacity == queue_capacity,
            shared.decisions.well_formed(),
            shared.decisions@ == LogView::empty(DEFAULT_DECISION_BUFFER_CAPACITY as nat),
    {
        SharedState { queue_capacity, decisions: DecisionLog::new() }
    }

    /// State with a decision log of the given capacity, clamped.
    pub fn with_decision_capacity(queue_capacity: usize, decision_capacity: usize) -> (shared: Self)
        ensures
            shared.queue_capacity == queue_capacity,
            shared.decisions.well_formed(),
            shared.decisions@ == LogView::empty(
                types::closest_in_range(
                    decision_capacity as int,
                    MIN_DECISION_BUFFER_CAPACITY as int,
                    MAX_DECISION_BUFFER_CAPACITY as int,
                ) as nat,
            ),
    {
        SharedState { queue_capacity, decisions: DecisionLog::with_capacity(decision_capacity) }
    }

    /// The decisions recorded so far.
    pub fn decisions(&self) -> (log: &DecisionLog)
        ensures
            *log == self.decisions,
    {
        &self.decisions
    }
}

} // verus!

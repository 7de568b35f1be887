//! How a bounded graph expansion reports the bound it met.

use vstd::prelude::*;
use crate::domain::MemoryObjectRef;

verus! {

/// What an expansion does when it meets a bound: keep what it found, or fail.
#[derive(Debug, Clone, Copy, PartialEq, Eq, Structural)]
pub enum GraphFailureMode {
    AllowPartialResults,
    FailClosed,
}

impl Default for GraphFailureMode {
    /// Partial results are allowed unless asked otherwise.
    fn default() -> (m: GraphFailureMode)
        ensures
            m == GraphFailureMode::AllowPartialResults,
    {
        GraphFailureMode::AllowPartialResults
    }
}

/// The bound an expansion met.
#[derive(Debug, Clone, Copy, PartialEq, Eq, Structural)]
pub enum GraphExpansionBoundedReason {
    NodeLimit,
    Timeout,
    HubLimit,
}

/// The bound an expansion met, and the object it met it at, if any.
#[derive(Debug, Clone, Copy, PartialEq, Eq, Structural)]
pub struct GraphExpansionBoundedFailureTrace {
    pub reason: GraphExpansionBoundedReason,
    pub at: Option<MemoryObjectRef>,
}

} // verus!

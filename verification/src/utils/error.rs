use vstd::prelude::*;

verus! {

/// Failures of the cancellable-task primitive, as its callers see them.
#[derive(Debug, Clone, PartialEq, Eq)]
pub enum Error {
    /// The body of the task terminated abnormally; the payload carries the
    /// runtime's description of the failure.
    JoinError(String),
    /// The completion slot of the handle was already consumed by an earlier
    /// join.
    AlreadyConsumed,
}

} // verus!

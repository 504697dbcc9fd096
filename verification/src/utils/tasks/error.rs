use vstd::prelude::*;

verus! {

/// Failures surfaced by a task handle's join: the body terminated
/// abnormally, or the handle's completion slot was consumed already.
#[derive(Debug, Clone, PartialEq, Eq)]
pub enum Error {
    /// The body of the task terminated abnormally; the payload carries the
    /// runtime's description of the failure.
    JoinError(String),
    /// A join was already performed on this handle.
    AlreadyConsumed,
}

} // verus!

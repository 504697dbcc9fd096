pub mod error;
pub mod state;

use crate::utils::error::Error;
use vstd::prelude::*;

verus! {

/// Control state of one cancellable unit of background work.
///
/// The execution itself — spawning the body on a scheduler, awaiting its
/// completion, aborting it when the handle is released — belongs to the
/// embedding runtime. This type is the source of truth for every decision
/// the handle makes: whether cancellation has been requested, whether the
/// single completion slot was already consumed, and whether the body has
/// been observed to finish. The runtime keeps its own primitives in step
/// with this state and never decides on its own.
#[derive(Debug, Clone, Copy, PartialEq, Eq)]
pub struct CancellableTask {
    /// Cancellation has been requested; once set it stays set.
    pub cancelled: bool,
    /// The completion slot was consumed by a join.
    pub consumed: bool,
    /// The body has been observed to finish by the runtime.
    pub finished: bool,
}

impl CancellableTask {
    /// No cancellation requested, completion slot available, body still
    /// running: the state of a handle the moment its work is spawned.
    pub open spec fn is_fresh(self) -> bool {
        !self.cancelled && !self.consumed && !self.finished
    }

    pub fn new() -> (t: Self)
        ensures
            t.is_fresh(),
    {
        CancellableTask { cancelled: false, consumed: false, finished: false }
    }

    /// Request cancellation. Idempotent: any number of calls leaves the
    /// handle cancelled, and nothing else about it changes.
    pub fn cancel(&mut self)
        ensures
            *final(self) == spec_cancel(*old(self)),
            final(self).cancelled,
    {
        self.cancelled = true;
    }

    /// Consume the single completion slot. The first call succeeds and the
    /// caller may then await the body's outcome; every later call fails with
    /// `AlreadyConsumed` and changes nothing.
    pub fn join(&mut self) -> (r: Result<(), Error>)
        ensures
            old(self).consumed ==> r == Err::<(), Error>(Error::AlreadyConsumed) && *final(self)
                == *old(self),
            !old(self).consumed ==> r == Ok::<(), Error>(()) && *final(self) == (CancellableTask {
                consumed: true,
                ..*old(self)
            }),
    {
        if self.consumed {
            Err(Error::AlreadyConsumed)
        } else {
            self.consumed = true;
            Ok(())
        }
    }

    /// Record that the runtime observed the body finish.
    pub fn mark_finished(&mut self)
        ensures
            *final(self) == (CancellableTask { finished: true, ..*old(self) }),
    {
        self.finished = true;
    }

    /// A handle whose slot was consumed no longer owns outstanding work, so
    /// it reports finished as well.
    pub fn is_finished(&self) -> (r: bool)
        ensures
            r == (self.consumed || self.finished),
    {
        self.consumed || self.finished
    }

    pub fn is_cancelled(&self) -> (r: bool)
        ensures
            r == self.cancelled,
    {
        self.cancelled
    }
}

/// Requesting cancellation any number of times is safe: a second request
/// changes nothing at all, and the handle stays cancelled.
pub proof fn lemma_cancel_idempotent(t: CancellableTask)
    ensures
        spec_cancel(spec_cancel(t)) == spec_cancel(t),
        spec_cancel(t).cancelled,
{
}

/// The state `cancel` leaves a handle in.
pub open spec fn spec_cancel(t: CancellableTask) -> CancellableTask {
    CancellableTask { cancelled: true, ..t }
}

} // verus!

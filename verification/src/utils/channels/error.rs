use vstd::prelude::*;

verus! {

/// Every way a channel command can fail. Commands recover every failure at
/// their boundary and return it as a value: none of them panics or hangs its
/// caller.
#[derive(Debug, Clone, PartialEq, Eq)]
pub enum Error {
    /// A task body terminated abnormally; the payload carries the runtime's
    /// description of the failure.
    JoinError(String),
    /// The operation targeted an identifier with no live entry.
    ChannelNotFound { id: String },
    /// A register targeted an identifier that already has a live entry.
    ChannelAlreadyExists { id: String },
    /// Delivering an event to the sink failed; terminal for that producer
    /// only, never surfaced through a command.
    ChannelSendError { id: String, reason: String },
    /// A start on a running channel, or a pause on a paused one.
    InvalidStateTransition { id: String },
    /// The registry's exclusive guard could not be acquired.
    LockError(String),
    /// Cancellation of the channel's task could not be requested.
    TaskCancellationError { id: String },
}

} // verus!

use vstd::prelude::*;

verus! {

/// Every way supervising a sidecar process can fail. The shell-facing
/// variant carries the runtime's description of the fault; the supervisor's
/// own decisions produce the other two.
#[derive(Debug, Clone, PartialEq, Eq)]
pub enum Error {
    /// Spawning or writing to the supervised process failed in the shell
    /// layer underneath.
    TauriPluginShell(String),
    /// A spawn targeted a name that is already running.
    SidecarAlreadyStarted(String),
    /// A shutdown targeted a name with no running process.
    SidecarNotFound(String),
}

} // verus!

use vstd::prelude::*;

verus! {

/// Every way a settings-store operation can fail. The storage-facing
/// variants carry the backend's description of the fault; the store's own
/// logic produces only `SettingNotFound` and `InvalidPath`.
#[derive(Debug, Clone, PartialEq, Eq)]
pub enum Error {
    /// The application directory for the backing file could not be created.
    DirectoryCreation(String),
    /// The connection to the backing database failed.
    Connection(String),
    /// A schema migration of the backing database failed.
    Migration(String),
    /// A document could not be encoded or decoded.
    JsonSerialization(String),
    /// A lookup targeted a key with no stored document.
    SettingNotFound(String),
    /// A dotted path led through or onto something other than an object.
    InvalidPath(String),
}

} // verus!

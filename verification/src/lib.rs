//! Lifecycle management for named, independently cancellable producers of
//! periodic events, together with the sibling settings-store and sidecar
//! bookkeeping that the surrounding application wires to real I/O.
//!
//! The registry of channels is the core: it guarantees at most one producer
//! per identifier and race-free state transitions, and every command against
//! it is total. The execution of the producers themselves (spawning, awaiting,
//! aborting) is performed by the embedding runtime; this crate holds and
//! verifies every decision those components make.

pub mod settings;
pub mod utils;

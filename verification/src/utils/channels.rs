pub mod commands;
pub mod error;
pub mod laws;
pub mod state;

pub mod error;
pub mod state;
pub mod json;

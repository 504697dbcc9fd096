pub mod channels;
pub mod error;
pub mod tasks;

pub mod database;
pub mod sidecars;

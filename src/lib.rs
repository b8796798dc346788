pub mod laws;
pub mod memory;
pub mod rank;
pub mod repo;
pub mod user;

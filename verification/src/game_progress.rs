//! The progress record: what a player has seen, earned and unlocked.

pub mod field;
pub mod serde;

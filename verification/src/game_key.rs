//! The key record: what each collectible key has unlocked.

pub mod field;
pub mod serde;

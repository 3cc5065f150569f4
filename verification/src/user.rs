//! The user profile record.

pub mod field;
pub mod serde;

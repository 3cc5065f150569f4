//! The summary record: rank, ranking score, and what was cleared at each difficulty.

pub mod field;
pub mod serde;

//! The score record: for each song, the best result at each difficulty played.

pub mod field;
pub mod serde;

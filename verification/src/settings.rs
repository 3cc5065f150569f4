//! The settings record: a group of flags, the device name, and six sliders.

pub mod field;
pub mod serde;

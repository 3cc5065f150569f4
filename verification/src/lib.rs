//! Codec for the bit-packed, versioned save records of a rhythm game.
//!
//! A record is read from and written to an exact bit layout. Bits are numbered from the
//! least significant bit of each byte and integers are little-endian; a field that is
//! aligned starts on a byte boundary, the bits before it are zero when written and ignored
//! when read.
//!
//! - [`bits`] is the model: sequences of bits, and the numbers and bytes that they hold.
//! - [`cursor`] reads from a byte buffer, [`buffer`] writes to one; [`wire`] holds the laws
//!   that tie the two together.
//! - [`field`] says what a field of a record is, and decodes and encodes whole records.
//! - [`phi_base`] has the variable-length integer and the length-prefixed string.
//! - [`user`], [`summary`], [`settings`], [`game_progress`], [`game_key`] and
//!   [`game_record`] are the six records, each with its wire form and its canonical form.
//! - [`name_map`] is the map from names to values that the canonical forms use.
//! - [`c_api`] is what the foreign boundary decides, on plain values.
//!
//! For every record, what is written is what is read: the bytes that encode a valid record
//! decode to that record, its counts and lengths recomputed from what its arrays hold.

pub mod bits;
pub mod buffer;
pub mod c_api;
pub mod cursor;
pub mod error;
pub mod field;
pub mod game_key;
pub mod game_progress;
pub mod game_record;
pub mod name_map;
pub mod phi_base;
pub mod settings;
pub mod summary;
pub mod user;
pub mod wire;

//! The errors of decoding and encoding, and their kinds.

use vstd::prelude::*;

verus! {

/// Why a record could not be decoded or encoded.
#[derive(Clone, Copy, Debug, PartialEq, Eq, Structural)]
pub enum CodecError {
    /// A field needs `needed` bits where only `available` are left.
    InsufficientBits { needed: usize, available: usize },
    /// The bytes of a string are not UTF-8.
    InvalidUtf8,
    /// A value has no representation on the wire.
    ValueOutOfRange,
    /// The record's version is older than the oldest one supported.
    UnsupportedVersion { version: u8 },
    /// More bits than a bit view can address.
    TooLarge,
}

/// The kinds of failure that a caller tells apart.
#[derive(Clone, Copy, Debug, PartialEq, Eq, Structural)]
pub enum ErrorKind {
    /// The input ends before the record does.
    Structure,
    /// Bytes are not UTF-8, or a value has no wire form.
    Encoding,
    /// The record is well formed and is rejected for what it says.
    Validation,
    /// The buffer is beyond what can be handled.
    Boundary,
}

impl CodecError {
    /// The kind of this error.
    pub open spec fn spec_kind(self) -> ErrorKind {
        match self {
            CodecError::InsufficientBits { .. } => ErrorKind::Structure,
            CodecError::InvalidUtf8 => ErrorKind::Encoding,
            CodecError::ValueOutOfRange => ErrorKind::Encoding,
            CodecError::UnsupportedVersion { .. } => ErrorKind::Validation,
            CodecError::TooLarge => ErrorKind::Boundary,
        }
    }

    /// The kind of this error.
    pub fn kind(&self) -> (kind: ErrorKind)
        ensures
            kind == self.spec_kind(),
    {
        match self {
            CodecError::InsufficientBits { .. } => ErrorKind::Structure,
            CodecError::InvalidUtf8 => ErrorKind::Encoding,
            CodecError::ValueOutOfRange => ErrorKind::Encoding,
            CodecError::UnsupportedVersion { .. } => ErrorKind::Validation,
            CodecError::TooLarge => ErrorKind::Boundary,
        }
    }

    /// Why a record was rejected for what it says; nothing for the other kinds.
    pub fn reason(&self) -> (text: Option<String>)
        ensures
            text is Some <==> self.spec_kind() == ErrorKind::Validation,
            text matches Some(t) ==> t@ == "Not supported"@,
    {
        match self {
            CodecError::UnsupportedVersion { .. } => Some("Not supported".to_owned()),
            _ => None,
        }
    }
}

} // verus!

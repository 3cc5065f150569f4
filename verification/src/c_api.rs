//! What the foreign boundary decides, on plain values: one decoding and one encoding
//! function for each record, the buffer descriptor, and the slot of the last error.

use crate::bits::byte_bits;
use crate::cursor::MAX_BYTES;
use crate::error::CodecError;
use crate::field::{decode, encode, spec_decode, spec_encode, BinaryField};
use crate::game_key::field::GameKey;
use crate::game_key::serde::{SerializableGameKey, SerializableGameKeyView};
use crate::game_progress::field::GameProgress;
use crate::game_progress::serde::SerializableGameProgress;
use crate::game_record::field::GameRecord;
use crate::game_record::serde::{SerializableGameRecord, SerializableGameRecordView};
use crate::settings::field::Settings;
use crate::settings::serde::SerializableSettings;
use crate::summary::field::Summary;
use crate::summary::serde::SerializableSummary;
use crate::user::field::User;
use crate::user::serde::SerializableUser;
use vstd::prelude::*;
use vstd::slice::slice_to_vec;

verus! {

/// A buffer that crosses the boundary: its length and its address, zero for none.
#[derive(Clone, Copy, Debug, PartialEq, Eq, Structural)]
pub struct Data {
    pub len: usize,
    pub ptr: usize,
}

/// The buffer that stands for nothing: no bytes, at no address.
pub fn empty_data() -> (data: Data)
    ensures
        data.len == 0,
        data.ptr == 0,
{
    Data { len: 0, ptr: 0 }
}

/// The error of the last call that failed, kept by each caller for itself.
#[derive(Debug)]
pub struct LastError {
    message: String,
}

impl View for LastError {
    type V = Seq<char>;

    closed spec fn view(&self) -> Seq<char> {
        self.message@
    }
}

impl LastError {
    /// A slot without an error.
    pub fn new() -> (slot: LastError)
        ensures
            slot@ == Seq::<char>::empty(),
    {
        LastError { message: String::new() }
    }
}

/// Puts `msg` in the slot, in the place of what was there.
pub fn set_error(slot: &mut LastError, msg: &str)
    ensures
        final(slot)@ == msg@,
{
    slot.message = msg.to_owned();
}

/// The bytes of the message in the slot; none if there is no error.
pub fn get_last_error(slot: &LastError) -> (bytes: Vec<u8>)
    ensures
        bytes@ == vstd::utf8::encode_utf8(slot@),
{
    slice_to_vec(slot.message.as_str().as_bytes())
}

/// Empties the slot. Says that it did.
pub fn clear_last_error(slot: &mut LastError) -> (done: bool)
    ensures
        done,
        final(slot)@ == Seq::<char>::empty(),
{
    slot.message = String::new();
    true
}

/// Why a call over the boundary failed.
#[derive(Clone, Copy, Debug, PartialEq, Eq, Structural)]
pub enum BoundaryError {
    /// A buffer of no bytes was asked for.
    InvalidLength,
    /// No input bytes were given.
    EmptyInput,
    /// The bytes given are not the record.
    Parse(CodecError),
    /// The record has no bytes.
    Build(CodecError),
}

/// Judges the length of a buffer that a caller asks for: one of no bytes is refused.
pub fn check_len(len: usize) -> (r: Result<(), BoundaryError>)
    ensures
        r is Ok <==> len != 0,
        r matches Err(e) ==> e == BoundaryError::InvalidLength,
{
    if len == 0 {
        Err(BoundaryError::InvalidLength)
    } else {
        Ok(())
    }
}

/// The raw bytes that a decoding function accepts: the record that they hold, or why they
/// hold none.
pub open spec fn spec_parse_input<T: BinaryField>(data: Seq<u8>) -> Result<T::V, BoundaryError> {
    if data.len() == 0 {
        Err(BoundaryError::EmptyInput)
    } else {
        match spec_decode::<T>(data) {
            Ok(v) => Ok(v),
            Err(e) => Err(BoundaryError::Parse(e)),
        }
    }
}

/// Whether `r` is the encoding of the record `v`, or says why it has none.
pub open spec fn is_build_result<T: BinaryField>(
    r: Result<Vec<u8>, BoundaryError>,
    v: T::V,
) -> bool {
    match r {
        Ok(bytes) => {
            &&& T::representable(v)
            &&& byte_bits(bytes@) == spec_encode::<T>(v)
            &&& bytes@.len() <= MAX_BYTES
        },
        Err(e) => if T::representable(v) {
            e == BoundaryError::Build(CodecError::TooLarge) && spec_encode::<T>(v).len() > 8
                * MAX_BYTES
        } else {
            e == BoundaryError::Build(CodecError::ValueOutOfRange)
        },
    }
}

/// Decodes raw bytes into a record, or says why they are none.
fn parse_input<T: BinaryField>(data: &[u8]) -> (r: Result<T, BoundaryError>)
    ensures
        match r {
            Ok(v) => spec_parse_input::<T>(data@) == Ok::<T::V, BoundaryError>(v@),
            Err(e) => spec_parse_input::<T>(data@) == Err::<T::V, BoundaryError>(e),
        },
{
    if data.len() == 0 {
        return Err(BoundaryError::EmptyInput);
    }
    match decode::<T>(data) {
        Ok(v) => Ok(v),
        Err(e) => Err(BoundaryError::Parse(e)),
    }
}

/// Encodes a record into raw bytes, or says why it has none.
fn build_output<T: BinaryField>(v: &T) -> (r: Result<Vec<u8>, BoundaryError>)
    ensures
        is_build_result::<T>(r, v@),
{
    match encode::<T>(v) {
        Ok(bytes) => Ok(bytes),
        Err(e) => Err(BoundaryError::Build(e)),
    }
}

/// Decodes a user profile and gives its canonical form.
pub fn parse_user(data: &[u8]) -> (r: Result<SerializableUser, BoundaryError>)
    ensures
        match r {
            Ok(c) => exists|raw: User|
                spec_parse_input::<User>(data@) == Ok::<_, BoundaryError>(raw@) && c
                    == SerializableUser::of_raw(raw),
            Err(e) => spec_parse_input::<User>(data@) matches Err(why) && why == e,
        },
{
    match parse_input::<User>(data) {
        Ok(raw) => Ok(SerializableUser::from(raw)),
        Err(e) => Err(e),
    }
}

/// Encodes the user profile that a canonical form stands for.
pub fn build_user(c: SerializableUser) -> (r: Result<Vec<u8>, BoundaryError>)
    ensures
        is_build_result::<User>(r, c.raw()@),
{
    build_output::<User>(&User::from(c))
}

/// Decodes a summary and gives its canonical form.
pub fn parse_summary(data: &[u8]) -> (r: Result<SerializableSummary, BoundaryError>)
    ensures
        match r {
            Ok(c) => exists|raw: Summary|
                spec_parse_input::<Summary>(data@) == Ok::<_, BoundaryError>(raw@) && c
                    == SerializableSummary::of_raw(raw),
            Err(e) => spec_parse_input::<Summary>(data@) matches Err(why) && why == e,
        },
{
    match parse_input::<Summary>(data) {
        Ok(raw) => Ok(SerializableSummary::from(raw)),
        Err(e) => Err(e),
    }
}

/// Encodes the summary that a canonical form stands for.
pub fn build_summary(c: SerializableSummary) -> (r: Result<Vec<u8>, BoundaryError>)
    ensures
        is_build_result::<Summary>(r, c.raw()@),
{
    build_output::<Summary>(&Summary::from(c))
}

/// Decodes settings and gives their canonical form.
pub fn parse_settings(data: &[u8]) -> (r: Result<SerializableSettings, BoundaryError>)
    ensures
        match r {
            Ok(c) => exists|raw: Settings|
                spec_parse_input::<Settings>(data@) == Ok::<_, BoundaryError>(raw@) && c
                    == SerializableSettings::of_raw(raw),
            Err(e) => spec_parse_input::<Settings>(data@) matches Err(why) && why == e,
        },
{
    match parse_input::<Settings>(data) {
        Ok(raw) => Ok(SerializableSettings::from(raw)),
        Err(e) => Err(e),
    }
}

/// Encodes the settings that a canonical form stands for.
pub fn build_settings(c: SerializableSettings) -> (r: Result<Vec<u8>, BoundaryError>)
    ensures
        is_build_result::<Settings>(
            r,
            c.raw()@,
        ),
{
    build_output::<Settings>(&Settings::from(c))
}

/// Decodes a progress record and gives its canonical form.
pub fn parse_game_progress(data: &[u8]) -> (r: Result<SerializableGameProgress, BoundaryError>)
    ensures
        match r {
            Ok(c) => exists|raw: GameProgress|
                spec_parse_input::<GameProgress>(data@) == Ok::<_, BoundaryError>(raw@) && c
                    == SerializableGameProgress::of_raw(raw),
            Err(e) => spec_parse_input::<GameProgress>(data@) matches Err(why) && why == e,
        },
{
    match parse_input::<GameProgress>(data) {
        Ok(raw) => Ok(SerializableGameProgress::from(raw)),
        Err(e) => Err(e),
    }
}

/// Encodes the progress record that a canonical form stands for.
pub fn build_game_progress(c: SerializableGameProgress) -> (r: Result<Vec<u8>, BoundaryError>)
    ensures
        is_build_result::<GameProgress>(
            r,
            c.raw()@,
        ),
{
    build_output::<GameProgress>(&GameProgress::from(c))
}

/// Decodes a key record and gives its canonical form.
pub fn parse_game_key(data: &[u8]) -> (r: Result<SerializableGameKey, BoundaryError>)
    ensures
        match r {
            Ok(c) => exists|raw: crate::game_key::field::GameKeyView|
                spec_parse_input::<GameKey>(data@) == Ok::<_, BoundaryError>(raw) && c@
                    == SerializableGameKeyView::of_raw(raw) && c.keys.wf(),
            Err(e) => spec_parse_input::<GameKey>(data@) matches Err(why) && why == e,
        },
{
    match parse_input::<GameKey>(data) {
        Ok(raw) => Ok(SerializableGameKey::from(raw)),
        Err(e) => Err(e),
    }
}

/// Encodes the key record that a canonical form stands for.
pub fn build_game_key(c: SerializableGameKey) -> (r: Result<Vec<u8>, BoundaryError>)
    ensures
        is_build_result::<GameKey>(r, c@.raw()),
{
    build_output::<GameKey>(&GameKey::from(c))
}

/// Decodes a score record and gives its canonical form.
pub fn parse_game_record(data: &[u8]) -> (r: Result<SerializableGameRecord, BoundaryError>)
    ensures
        match r {
            Ok(c) => exists|raw: crate::game_record::field::GameRecordView|
                spec_parse_input::<GameRecord>(data@) == Ok::<_, BoundaryError>(raw) && c@
                    == SerializableGameRecordView::of_raw(raw) && c.songs.wf(),
            Err(e) => spec_parse_input::<GameRecord>(data@) matches Err(why) && why == e,
        },
{
    match parse_input::<GameRecord>(data) {
        Ok(raw) => Ok(SerializableGameRecord::from(raw)),
        Err(e) => Err(e),
    }
}

/// Encodes the score record that a canonical form stands for.
pub fn build_game_record(c: SerializableGameRecord) -> (r: Result<Vec<u8>, BoundaryError>)
    ensures
        is_build_result::<GameRecord>(r, c@.raw()),
{
    build_output::<GameRecord>(&GameRecord::from(c))
}

} // verus!

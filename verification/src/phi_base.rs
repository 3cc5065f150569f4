//! The two composite primitives: a variable-length integer and a length-prefixed string.

use crate::bits::{bits_to_bytes, byte_bits, le_bits, lemma_le_bits_len, pad8};
use crate::buffer::BitBuffer;
use crate::cursor::{take_bytes, take_u8, BitCursor, Taken};
use crate::error::CodecError;
use crate::field::{lemma_decode_encode, spec_decode, spec_encode, BinaryField};
use crate::wire::{lemma_take_bytes_written, lemma_take_u8_written};
use vstd::prelude::*;
use vstd::std_specs::convert::FromSpecImpl;
use vstd::utf8::{
    decode_utf8, encode_utf8, encode_utf8_decode_utf8, encode_utf8_valid_utf8, valid_utf8,
};

verus! {

/// The greatest value that a `VarInt` has a wire form for.
pub const VARINT_MAX: u16 = 32767;

/// An unsigned integer of one or two bytes on the wire.
///
/// Values up to 127 take one byte. Greater ones take two: the first holds the seven low bits
/// and has its top bit set, the second holds bits 7 to 14.
#[derive(Clone, Copy, Debug, PartialEq, Eq, Structural)]
pub struct VarInt(pub u16);

impl View for VarInt {
    type V = VarInt;

    open spec fn view(&self) -> VarInt {
        *self
    }
}

impl VarInt {
    /// The number of bits of the wire form.
    pub open spec fn spec_bit_len(self) -> nat {
        if self.0 > 127 {
            16
        } else {
            8
        }
    }

    /// The number of bits that `build` appends.
    pub fn bit_len(&self) -> (n: usize)
        ensures
            n == self.spec_bit_len(),
    {
        if self.0 > 127 {
            16
        } else {
            8
        }
    }

    /// The wire form has `spec_bit_len` bits.
    pub proof fn lemma_bit_len(v: VarInt, pre: Seq<bool>)
        ensures
            VarInt::spec_build(v, pre).len() == pre.len() + v.spec_bit_len(),
    {
        lemma_le_bits_len(v.0 as nat, 8);
        lemma_le_bits_len((128 + v.0 % 128) as nat, 8);
        lemma_le_bits_len((v.0 / 128) as nat, 8);
    }

    /// A first byte that announces a second one, where no second one is left, is a shortage
    /// of bits.
    pub proof fn lemma_second_byte_missing(bits: Seq<bool>, pos: nat)
        requires
            take_u8(bits, pos) matches Ok((first, _)) && first > 127,
            bits.len() - pos < 16,
        ensures
            VarInt::spec_parse(bits, pos) == Err::<(VarInt, nat), CodecError>(
                CodecError::InsufficientBits { needed: 16, available: (bits.len() - pos) as usize },
            ),
            VarInt::spec_parse(bits, pos)->Err_0.spec_kind() == crate::error::ErrorKind::Structure,
    {
    }

    /// The boundaries of the wire form: a value up to 127 is encoded in one byte, a greater
    /// one up to 32767 in two, and the bytes decode to the value.
    pub proof fn lemma_boundaries(v: VarInt, bytes: Seq<u8>)
        requires
            v.0 <= VARINT_MAX,
            byte_bits(bytes) == spec_encode::<VarInt>(v),
        ensures
            bytes.len() == if v.0 <= 127 {
                1nat
            } else {
                2nat
            },
            spec_decode::<VarInt>(bytes) == Ok::<VarInt, CodecError>(v),
    {
        let built = VarInt::spec_build(v, Seq::empty());
        VarInt::lemma_bit_len(v, Seq::empty());
        assert(pad8(built) =~= built);
        lemma_decode_encode::<VarInt>(v, bytes);
    }
}

impl BinaryField for VarInt {
    open spec fn representable(v: VarInt) -> bool {
        v.0 <= VARINT_MAX
    }

    open spec fn valid(v: VarInt) -> bool {
        v.0 <= VARINT_MAX
    }

    open spec fn normal(v: VarInt) -> VarInt {
        v
    }

    open spec fn spec_parse(bits: Seq<bool>, pos: nat) -> Taken<VarInt> {
        match take_u8(bits, pos) {
            Err(e) => Err(e),
            Ok((first, after_first)) => if first <= 127 {
                Ok((VarInt(first as u16), after_first))
            } else if bits.len() - pos < 16 {
                Err(
                    CodecError::InsufficientBits {
                        needed: 16,
                        available: (bits.len() - pos) as usize,
                    },
                )
            } else {
                match take_u8(bits, after_first) {
                    Err(e) => Err(e),
                    Ok((second, after_second)) => Ok(
                        (VarInt((first % 128 + 128 * second) as u16), after_second),
                    ),
                }
            },
        }
    }

    open spec fn spec_build(v: VarInt, pre: Seq<bool>) -> Seq<bool> {
        if v.0 <= 127 {
            pre + le_bits(v.0 as nat, 8)
        } else {
            pre + le_bits((128 + v.0 % 128) as nat, 8) + le_bits((v.0 / 128) as nat, 8)
        }
    }

    fn parse<'a>(cur: BitCursor<'a>) -> (r: Result<(VarInt, BitCursor<'a>), CodecError>)
        ensures
            r matches Ok((v, _)) ==> v.0 <= VARINT_MAX,
    {
        let available = cur.remaining();
        let (first, after_first) = match cur.read_u8() {
            Ok(x) => x,
            Err(e) => {
                return Err(e);
            },
        };
        if first > 127 {
            if available < 16 {
                return Err(CodecError::InsufficientBits { needed: 16, available });
            }
            let (second, after_second) = match after_first.read_u8() {
                Ok(x) => x,
                Err(e) => {
                    return Err(e);
                },
            };
            let value = ((first & 0x7F) as u16) | ((second as u16) << 7);
            assert(value == first % 128 + 128 * second && value <= 32767) by (bit_vector)
                requires
                    value == ((first & 0x7F) as u16) | ((second as u16) << 7),
            ;
            Ok((VarInt(value), after_second))
        } else {
            Ok((VarInt(first as u16), after_first))
        }
    }

    fn build(&self, buf: &mut BitBuffer) -> (r: Result<(), CodecError>) {
        if self.0 > VARINT_MAX {
            return Err(CodecError::ValueOutOfRange);
        }
        if self.0 > 127 {
            let first = ((self.0 & 0x7F) as u8) | 0x80;
            let second = (self.0 >> 7) as u8;
            let v = self.0;
            assert(first == 128 + v % 128 && second == v / 128) by (bit_vector)
                requires
                    v <= 32767,
                    first == ((v & 0x7F) as u8) | 0x80,
                    second == (v >> 7) as u8,
            ;
            buf.write_u8(first);
            buf.write_u8(second);
        } else {
            buf.write_u8(self.0 as u8);
        }
        Ok(())
    }

    proof fn lemma_parse_build(v: VarInt, pre: Seq<bool>, bits: Seq<bool>) {
        if v.0 <= 127 {
            lemma_take_u8_written(bits, pre, v.0 as u8);
        } else {
            let first = (128 + v.0 % 128) as u8;
            let second = (v.0 / 128) as u8;
            let head = pre + le_bits(first as nat, 8);
            lemma_take_u8_written(bits, head, second);
            lemma_take_u8_written(bits, pre, first);
        }
    }

    proof fn lemma_parsed_valid(bits: Seq<bool>, pos: nat) {
    }
}

impl From<VarInt> for usize {
    fn from(var: VarInt) -> (n: usize)
        ensures
            n == var.0,
    {
        var.0 as usize
    }
}

impl FromSpecImpl<VarInt> for usize {
    open spec fn obeys_from_spec() -> bool {
        true
    }

    open spec fn from_spec(var: VarInt) -> usize {
        var.0 as usize
    }
}

impl From<u16> for VarInt {
    fn from(value: u16) -> (var: VarInt)
        ensures
            var.0 == value,
    {
        VarInt(value)
    }
}

impl FromSpecImpl<u16> for VarInt {
    open spec fn obeys_from_spec() -> bool {
        true
    }

    open spec fn from_spec(value: u16) -> VarInt {
        VarInt(value)
    }
}

impl From<VarInt> for u16 {
    fn from(var: VarInt) -> (value: u16)
        ensures
            value == var.0,
    {
        var.0
    }
}

impl FromSpecImpl<VarInt> for u16 {
    open spec fn obeys_from_spec() -> bool {
        true
    }

    open spec fn from_spec(var: VarInt) -> u16 {
        var.0
    }
}

impl Default for VarInt {
    fn default() -> (r: VarInt)
        ensures
            r == VarInt(0),
    {
        VarInt(0)
    }
}

/// `String::from_utf8` of std. Taken on trust: it gives a string exactly when the bytes are
/// valid UTF-8, and the string then holds the characters that the bytes encode.
#[verifier::external_body]
fn string_from_utf8(bytes: Vec<u8>) -> (r: Option<String>)
    ensures
        r is Some <==> valid_utf8(bytes@),
        r matches Some(s) ==> s@ == decode_utf8(bytes@),
{
    match String::from_utf8(bytes) {
        Ok(s) => Some(s),
        Err(_) => None,
    }
}

/// A string that is written as a `VarInt` count of bytes and then its UTF-8 bytes.
#[derive(Debug, PartialEq, Eq)]
pub struct PhiString(pub String);

impl View for PhiString {
    type V = Seq<char>;

    open spec fn view(&self) -> Seq<char> {
        self.0@
    }
}

impl PhiString {
    /// The number of bits of the wire form.
    pub open spec fn spec_bit_len(chars: Seq<char>) -> nat {
        VarInt(encode_utf8(chars).len() as u16).spec_bit_len() + 8 * encode_utf8(chars).len()
    }

    /// The number of bits that `build` appends.
    pub fn bit_len(&self) -> (n: usize)
        requires
            PhiString::representable(self@),
        ensures
            n == PhiString::spec_bit_len(self@),
    {
        let len = self.0.as_str().as_bytes().len();
        VarInt(len as u16).bit_len() + len * 8
    }

    /// Whether the string is short enough to be written.
    pub fn fits(&self) -> (b: bool)
        ensures
            b == PhiString::representable(self@),
    {
        self.0.as_str().as_bytes().len() <= VARINT_MAX as usize
    }

    /// Strictness: where a count is read and the bytes that it announces are all there but
    /// are not UTF-8, reading the string is an error. No byte is replaced.
    pub proof fn lemma_invalid_utf8_rejected(bits: Seq<bool>, pos: nat)
        requires
            VarInt::spec_parse(bits, pos) matches Ok((count, after)) && pos <= after && after + 8
                * count.0 <= bits.len() && !valid_utf8(
                bits_to_bytes(bits.subrange(after as int, (after + 8 * count.0) as int)),
            ),
        ensures
            PhiString::spec_parse(bits, pos) == Err::<(Seq<char>, nat), CodecError>(
                CodecError::InvalidUtf8,
            ),
    {
    }

    /// The wire form of a string has `spec_bit_len` bits.
    pub proof fn lemma_bit_len(chars: Seq<char>, pre: Seq<bool>)
        ensures
            PhiString::spec_build(chars, pre).len() == pre.len() + PhiString::spec_bit_len(chars),
    {
        VarInt::lemma_bit_len(VarInt(encode_utf8(chars).len() as u16), pre);
    }
}

impl Default for PhiString {
    fn default() -> (r: PhiString)
        ensures
            r@ == Seq::<char>::empty(),
    {
        PhiString(String::new())
    }
}

impl From<String> for PhiString {
    fn from(s: String) -> (phi: PhiString)
        ensures
            phi.0 == s,
    {
        PhiString(s)
    }
}

impl FromSpecImpl<String> for PhiString {
    open spec fn obeys_from_spec() -> bool {
        true
    }

    open spec fn from_spec(s: String) -> PhiString {
        PhiString(s)
    }
}

impl<'a> From<&'a str> for PhiString {
    fn from(s: &'a str) -> (phi: PhiString)
        ensures
            phi@ == s@,
    {
        PhiString(s.to_owned())
    }
}

/// The conversion builds values that a specification cannot name; what it returns is
/// stated on `from` itself, over views.
impl<'a> FromSpecImpl<&'a str> for PhiString {
    open spec fn obeys_from_spec() -> bool {
        false
    }

    open spec fn from_spec(s: &'a str) -> PhiString {
        arbitrary()
    }
}

impl From<PhiString> for String {
    fn from(phi: PhiString) -> (s: String)
        ensures
            s == phi.0,
    {
        phi.0
    }
}

impl FromSpecImpl<PhiString> for String {
    open spec fn obeys_from_spec() -> bool {
        true
    }

    open spec fn from_spec(phi: PhiString) -> String {
        phi.0
    }
}

impl BinaryField for PhiString {
    /// A string has a wire form when its UTF-8 bytes are at most 32767.
    open spec fn representable(chars: Seq<char>) -> bool {
        encode_utf8(chars).len() <= VARINT_MAX
    }

    open spec fn valid(chars: Seq<char>) -> bool {
        encode_utf8(chars).len() <= VARINT_MAX
    }

    open spec fn normal(chars: Seq<char>) -> Seq<char> {
        chars
    }

    open spec fn spec_parse(bits: Seq<bool>, pos: nat) -> Taken<Seq<char>> {
        match VarInt::spec_parse(bits, pos) {
            Err(e) => Err(e),
            Ok((count, after_count)) => {
                let needed = after_count - pos + 8 * count.0;
                if bits.len() - pos < needed {
                    Err(
                        CodecError::InsufficientBits {
                            needed: needed as usize,
                            available: (bits.len() - pos) as usize,
                        },
                    )
                } else {
                    match take_bytes(bits, after_count, count.0 as nat) {
                        Err(e) => Err(e),
                        Ok((bytes, end)) => if valid_utf8(bytes) {
                            Ok((decode_utf8(bytes), end))
                        } else {
                            Err(CodecError::InvalidUtf8)
                        },
                    }
                }
            },
        }
    }

    open spec fn spec_build(chars: Seq<char>, pre: Seq<bool>) -> Seq<bool> {
        VarInt::spec_build(VarInt(encode_utf8(chars).len() as u16), pre) + byte_bits(
            encode_utf8(chars),
        )
    }

    /// Bytes that are not UTF-8 are an error: nothing is replaced.
    fn parse<'a>(cur: BitCursor<'a>) -> (r: Result<(PhiString, BitCursor<'a>), CodecError>)
        ensures
            r matches Ok((s, _)) ==> encode_utf8(s@).len() <= VARINT_MAX,
    {
        let available = cur.remaining();
        let (count, after_count) = match VarInt::parse(cur) {
            Ok(x) => x,
            Err(e) => {
                return Err(e);
            },
        };
        let needed = (after_count.position() - cur.position()) + 8 * (count.0 as usize);
        if available < needed {
            return Err(CodecError::InsufficientBits { needed, available });
        }
        let (bytes, end) = match after_count.read_bytes(count.0 as usize) {
            Ok(x) => x,
            Err(e) => {
                return Err(e);
            },
        };
        match string_from_utf8(bytes) {
            Some(s) => {
                proof {
                    vstd::utf8::decode_utf8_encode_utf8(bytes@);
                }
                Ok((PhiString(s), end))
            },
            None => Err(CodecError::InvalidUtf8),
        }
    }

    fn build(&self, buf: &mut BitBuffer) -> (r: Result<(), CodecError>) {
        let bytes = self.0.as_str().as_bytes();
        if bytes.len() > VARINT_MAX as usize {
            return Err(CodecError::ValueOutOfRange);
        }
        let count = VarInt(bytes.len() as u16);
        match count.build(buf) {
            Ok(()) => {},
            Err(e) => {
                return Err(e);
            },
        }
        buf.write_bytes(bytes);
        Ok(())
    }

    proof fn lemma_parse_build(chars: Seq<char>, pre: Seq<bool>, bits: Seq<bool>) {
        let bytes = encode_utf8(chars);
        let count = VarInt(bytes.len() as u16);
        let head = VarInt::spec_build(count, pre);
        lemma_take_bytes_written(bits, head, bytes);
        VarInt::lemma_parse_build(count, pre, bits);
        VarInt::lemma_bit_len(count, pre);
        encode_utf8_valid_utf8(chars);
        encode_utf8_decode_utf8(chars);
    }

    proof fn lemma_parsed_valid(bits: Seq<bool>, pos: nat) {
        VarInt::lemma_parsed_valid(bits, pos);
        if let Ok((count, after_count)) = VarInt::spec_parse(bits, pos) {
            if let Ok((bytes, _)) = take_bytes(bits, after_count, count.0 as nat) {
                if valid_utf8(bytes) {
                    vstd::utf8::decode_utf8_encode_utf8(bytes);
                }
            }
        }
    }
}

} // verus!

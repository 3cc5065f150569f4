//! Reading: a position in the bits of a byte buffer.

use crate::bits::{bits_to_bytes, byte_bits, le_value, lemma_le_value_bound};
use crate::error::CodecError;
use bitvec::field::BitField;
use bitvec::order::Lsb0;
use bitvec::slice::BitSlice;
use vstd::arithmetic::power2::lemma2_to64;
use vstd::prelude::*;

verus! {

/// The longest buffer, in bytes, whose bits a cursor or a bit buffer addresses.
pub const MAX_BYTES: usize = usize::MAX / 64;

/// The result of reading a value at a position: the value and the position after it.
pub type Taken<V> = Result<(V, nat), CodecError>;

/// The bit at `pos` of `bits`.
pub open spec fn take_bool(bits: Seq<bool>, pos: nat) -> Taken<bool> {
    if pos < bits.len() {
        Ok((bits[pos as int], pos + 1))
    } else {
        Err(CodecError::InsufficientBits { needed: 1, available: 0 })
    }
}

/// The little-endian number in the `width` bits from `pos` of `bits`.
pub open spec fn take_uint(bits: Seq<bool>, pos: nat, width: nat) -> Taken<nat> {
    if pos + width <= bits.len() {
        Ok((le_value(bits.subrange(pos as int, (pos + width) as int)), pos + width))
    } else {
        Err(
            CodecError::InsufficientBits {
                needed: width as usize,
                available: (bits.len() - pos) as usize,
            },
        )
    }
}

/// The byte in the eight bits from `pos` of `bits`.
pub open spec fn take_u8(bits: Seq<bool>, pos: nat) -> Taken<u8> {
    match take_uint(bits, pos, 8) {
        Ok((v, next)) => Ok((v as u8, next)),
        Err(e) => Err(e),
    }
}

/// The little-endian number in the sixteen bits from `pos` of `bits`.
pub open spec fn take_u16(bits: Seq<bool>, pos: nat) -> Taken<u16> {
    match take_uint(bits, pos, 16) {
        Ok((v, next)) => Ok((v as u16, next)),
        Err(e) => Err(e),
    }
}

/// The little-endian number in the thirty-two bits from `pos` of `bits`.
pub open spec fn take_u32(bits: Seq<bool>, pos: nat) -> Taken<u32> {
    match take_uint(bits, pos, 32) {
        Ok((v, next)) => Ok((v as u32, next)),
        Err(e) => Err(e),
    }
}

/// The `n` bits from `pos` of `bits`, read one at a time.
pub open spec fn take_flags(bits: Seq<bool>, pos: nat, n: nat) -> Taken<Seq<bool>> {
    if pos + n <= bits.len() {
        Ok((bits.subrange(pos as int, (pos + n) as int), pos + n))
    } else {
        Err(CodecError::InsufficientBits { needed: 1, available: 0 })
    }
}

/// The `n` bytes from `pos` of `bits`, read one at a time.
pub open spec fn take_bytes(bits: Seq<bool>, pos: nat, n: nat) -> Taken<Seq<u8>> {
    if pos + 8 * n <= bits.len() {
        Ok((bits_to_bytes(bits.subrange(pos as int, (pos + 8 * n) as int)), pos + 8 * n))
    } else {
        Err(
            CodecError::InsufficientBits {
                needed: 8,
                available: ((bits.len() - pos) % 8) as usize,
            },
        )
    }
}

/// Byte `j` of the bytes taken from `pos` is the number in the eight bits from `pos + 8 * j`.
pub proof fn lemma_taken_byte(bits: Seq<bool>, pos: nat, n: nat, j: int)
    requires
        pos + 8 * n <= bits.len(),
        0 <= j < n,
    ensures
        bits_to_bytes(bits.subrange(pos as int, (pos + 8 * n) as int))[j] == le_value(
            bits.subrange(pos + 8 * j, pos + 8 * j + 8),
        ) as u8,
{
    let window = bits.subrange(pos as int, (pos + 8 * n) as int);
    assert(window.subrange(8 * j, 8 * j + 8) =~= bits.subrange(pos + 8 * j, pos + 8 * j + 8));
}

/// The least multiple of eight that is not below `pos`.
pub open spec fn aligned(pos: nat) -> nat {
    ((pos + 7) / 8 * 8) as nat
}

/// An immutable view of a byte buffer as bits, with a position in it.
#[derive(Clone, Copy, Debug)]
pub struct BitCursor<'a> {
    bytes: &'a [u8],
    pos: usize,
}

/// `BitField::load_le::<u32>` of bitvec, applied to the bits `offset .. offset + width` of the
/// view that `BitSlice::<u8, Lsb0>::from_slice` gives of `bytes`. Taken on trust: the number
/// returned has those bits as its binary digits, the first of them the least significant.
#[verifier::external_body]
fn load_le(bytes: &[u8], offset: usize, width: usize) -> (value: u32)
    requires
        bytes@.len() <= MAX_BYTES,
        1 <= width <= 32,
        offset + width <= 8 * bytes@.len(),
    ensures
        value as nat == le_value(byte_bits(bytes@).subrange(offset as int, offset + width)),
{
    BitSlice::<u8, Lsb0>::from_slice(bytes)[offset..offset + width].load_le::<u32>()
}

impl<'a> BitCursor<'a> {
    /// All the bits of the buffer, those before the position too.
    pub closed spec fn bits(&self) -> Seq<bool> {
        byte_bits(self.bytes@)
    }

    /// The number of bits already consumed.
    pub closed spec fn pos(&self) -> nat {
        self.pos as nat
    }

    /// The cursor is consistent: the buffer is one that a bit view addresses, and the
    /// position lies in it or at its end.
    pub closed spec fn wf(&self) -> bool {
        &&& self.bytes@.len() <= MAX_BYTES
        &&& self.pos <= 8 * self.bytes@.len()
    }

    /// Whether `r` is what reading a `T` at `self` gives when the bits say `expected`.
    pub open spec fn yields<T: View>(
        &self,
        r: Result<(T, BitCursor<'a>), CodecError>,
        expected: Taken<T::V>,
    ) -> bool {
        match r {
            Ok((v, next)) => {
                &&& expected == Ok::<(T::V, nat), CodecError>((v@, next.pos()))
                &&& next.wf()
                &&& next.bits() == self.bits()
            },
            Err(e) => expected == Err::<(T::V, nat), CodecError>(e),
        }
    }

    /// A cursor at the first bit of `bytes`.
    pub fn new(bytes: &'a [u8]) -> (r: Result<BitCursor<'a>, CodecError>)
        ensures
            r is Ok <==> bytes@.len() <= MAX_BYTES,
            r matches Ok(c) ==> c.wf() && c.pos() == 0 && c.bits() == byte_bits(bytes@),
            r matches Err(e) ==> e == CodecError::TooLarge,
    {
        if bytes.len() > MAX_BYTES {
            Err(CodecError::TooLarge)
        } else {
            Ok(BitCursor { bytes, pos: 0 })
        }
    }

    /// The number of bits consumed so far.
    pub fn position(&self) -> (n: usize)
        requires
            self.wf(),
        ensures
            n == self.pos(),
    {
        self.pos
    }

    /// The number of bits left.
    pub fn remaining(&self) -> (n: usize)
        requires
            self.wf(),
        ensures
            n == self.bits().len() - self.pos(),
    {
        8 * self.bytes.len() - self.pos
    }

    /// Reads one bit.
    pub fn read_bool(self) -> (r: Result<(bool, BitCursor<'a>), CodecError>)
        requires
            self.wf(),
        ensures
            self.yields(r, take_bool(self.bits(), self.pos())),
    {
        if self.remaining() < 1 {
            return Err(CodecError::InsufficientBits { needed: 1, available: 0 });
        }
        let value = load_le(self.bytes, self.pos, 1);
        proof {
            let one = self.bits().subrange(self.pos as int, self.pos + 1);
            assert(one.drop_first() =~= Seq::<bool>::empty());
            assert(le_value(one.drop_first()) == 0);
            assert(one[0] == self.bits()[self.pos as int]);
        }
        Ok((value == 1, BitCursor { bytes: self.bytes, pos: self.pos + 1 }))
    }

    /// Reads a little-endian number of `width` bits.
    pub fn read_uint(self, width: usize) -> (r: Result<(u32, BitCursor<'a>), CodecError>)
        requires
            self.wf(),
            1 <= width <= 32,
        ensures
            match r {
                Ok((v, next)) => {
                    &&& take_uint(self.bits(), self.pos(), width as nat) == Ok::<(nat, nat), CodecError>((v as nat, next.pos()))
                    &&& next.wf()
                    &&& next.bits() == self.bits()
                },
                Err(e) => take_uint(self.bits(), self.pos(), width as nat) == Err::<(nat, nat), CodecError>(e),
            },
    {
        let available = self.remaining();
        if available < width {
            return Err(CodecError::InsufficientBits { needed: width, available });
        }
        let value = load_le(self.bytes, self.pos, width);
        Ok((value, BitCursor { bytes: self.bytes, pos: self.pos + width }))
    }

    /// Reads a byte.
    pub fn read_u8(self) -> (r: Result<(u8, BitCursor<'a>), CodecError>)
        requires
            self.wf(),
        ensures
            self.yields(r, take_u8(self.bits(), self.pos())),
    {
        match self.read_uint(8) {
            Ok((v, next)) => {
                proof {
                    lemma_le_value_bound(self.bits().subrange(self.pos as int, self.pos + 8));
                    lemma2_to64();
                }
                Ok((v as u8, next))
            },
            Err(e) => Err(e),
        }
    }

    /// Reads a little-endian `u16`.
    pub fn read_u16(self) -> (r: Result<(u16, BitCursor<'a>), CodecError>)
        requires
            self.wf(),
        ensures
            self.yields(r, take_u16(self.bits(), self.pos())),
    {
        match self.read_uint(16) {
            Ok((v, next)) => {
                proof {
                    lemma_le_value_bound(self.bits().subrange(self.pos as int, self.pos + 16));
                    lemma2_to64();
                }
                Ok((v as u16, next))
            },
            Err(e) => Err(e),
        }
    }

    /// Reads a little-endian `u32`.
    pub fn read_u32(self) -> (r: Result<(u32, BitCursor<'a>), CodecError>)
        requires
            self.wf(),
        ensures
            self.yields(r, take_u32(self.bits(), self.pos())),
    {
        match self.read_uint(32) {
            Ok((v, next)) => Ok((v, next)),
            Err(e) => Err(e),
        }
    }

    /// Reads `N` bits into an array of flags.
    pub fn read_flags<const N: usize>(self) -> (r: Result<([bool; N], BitCursor<'a>), CodecError>)
        requires
            self.wf(),
        ensures
            self.yields(r, take_flags(self.bits(), self.pos(), N as nat)),
    {
        let mut flags = [false; N];
        let mut cur = self;
        let mut i: usize = 0;
        while i < N
            invariant
                i <= N,
                self.wf(),
                cur.wf(),
                cur.bits() == self.bits(),
                cur.pos() == self.pos() + i,
                forall|j: int| 0 <= j < i ==> flags@[j] == self.bits()[self.pos() + j],
            decreases N - i,
        {
            match cur.read_bool() {
                Ok((flag, next)) => {
                    flags[i] = flag;
                    cur = next;
                },
                Err(e) => {
                    return Err(e);
                },
            }
            i += 1;
        }
        assert(flags@ =~= self.bits().subrange(self.pos() as int, (self.pos() + N) as int));
        Ok((flags, cur))
    }

    /// Reads `n` bytes.
    pub fn read_bytes(self, n: usize) -> (r: Result<(Vec<u8>, BitCursor<'a>), CodecError>)
        requires
            self.wf(),
        ensures
            self.yields(r, take_bytes(self.bits(), self.pos(), n as nat)),
    {
        let mut out: Vec<u8> = Vec::new();
        let mut cur = self;
        let mut i: usize = 0;
        while i < n
            invariant
                i <= n,
                self.wf(),
                cur.wf(),
                cur.bits() == self.bits(),
                cur.pos() == self.pos() + 8 * i,
                out@.len() == i,
                forall|j: int|
                    0 <= j < i ==> out@[j] == le_value(
                        self.bits().subrange(self.pos() + 8 * j, self.pos() + 8 * j + 8),
                    ) as u8,
            decreases n - i,
        {
            match cur.read_u8() {
                Ok((byte, next)) => {
                    out.push(byte);
                    cur = next;
                },
                Err(e) => {
                    return Err(e);
                },
            }
            i += 1;
        }
        proof {
            let taken = bits_to_bytes(
                self.bits().subrange(self.pos() as int, (self.pos() + 8 * n) as int),
            );
            assert forall|j: int| 0 <= j < n implies out@[j] == taken[j] by {
                lemma_taken_byte(self.bits(), self.pos(), n as nat, j);
            }
            assert(out@ =~= taken);
        }
        Ok((out, cur))
    }

    /// Moves to the next byte boundary; the bits passed over are ignored.
    pub fn align(self) -> (next: BitCursor<'a>)
        requires
            self.wf(),
        ensures
            next.wf(),
            next.bits() == self.bits(),
            next.pos() == aligned(self.pos()),
    {
        let whole = (self.pos + 7) / 8;
        assert(whole <= self.bytes@.len());
        assert(whole * 8 <= 8 * self.bytes@.len());
        BitCursor { bytes: self.bytes, pos: whole * 8 }
    }
}

} // verus!

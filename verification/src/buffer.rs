//! Writing: a growing sequence of bits, kept in bytes.

use crate::bits::{
    byte_bits, le_bits, lemma_byte_bits_at, lemma_byte_bits_concat, lemma_le_bits_len, pad8,
    pad_len, zeros,
};
use crate::cursor::MAX_BYTES;
use crate::error::CodecError;
use bitvec::field::BitField;
use bitvec::order::Lsb0;
use bitvec::slice::BitSlice;
use vstd::prelude::*;

verus! {

/// `BitField::store_le::<u32>` of bitvec, applied to the bits `offset .. offset + width` of the
/// view that `BitSlice::<u8, Lsb0>::from_slice_mut` gives of `bytes`. Taken on trust: those
/// bits become the `width` low binary digits of `value`, the least significant first, and
/// every other bit of `bytes` stays as it was.
#[verifier::external_body]
fn store_le(bytes: &mut Vec<u8>, offset: usize, width: usize, value: u32)
    requires
        old(bytes)@.len() <= MAX_BYTES,
        1 <= width <= 32,
        offset + width <= 8 * old(bytes)@.len(),
    ensures
        final(bytes)@.len() == old(bytes)@.len(),
        byte_bits(final(bytes)@) == byte_bits(old(bytes)@).subrange(0, offset as int) + le_bits(
            value as nat,
            width as nat,
        ) + byte_bits(old(bytes)@).subrange(offset + width, 8 * old(bytes)@.len() as int),
{
    BitSlice::<u8, Lsb0>::from_slice_mut(bytes.as_mut_slice())[offset..offset + width]
        .store_le::<u32>(value);
}

/// A zero byte appended is eight zero bits appended.
pub proof fn lemma_byte_bits_push_zero(bytes: Seq<u8>)
    ensures
        byte_bits(bytes.push(0u8)) == byte_bits(bytes) + zeros(8),
{
    let a = byte_bits(bytes.push(0u8));
    let b = byte_bits(bytes) + zeros(8);
    assert forall|k: int| 0 <= k < a.len() implies a[k] == b[k] by {
        if k >= 8 * bytes.len() {
            let i = (k % 8) as u8;
            assert((0u8 >> i) & 1u8 != 1u8) by (bit_vector);
            assert(bytes.push(0u8)[k / 8] == 0u8);
        } else {
            assert(bytes.push(0u8)[k / 8] == bytes[k / 8]);
        }
    }
    assert(a =~= b);
}

/// The distance from `len` to a multiple of eight `total` that is fewer than eight away.
proof fn lemma_pad_len(len: nat, total: nat)
    requires
        total % 8 == 0,
        len <= total < len + 8,
    ensures
        pad_len(len) == total - len,
{
}

/// Writing `written` over the first zero bits behind `before` leaves `before + written`,
/// filled up with zero bits.
proof fn lemma_overwrite_zeros(before: Seq<bool>, written: Seq<bool>, room: nat)
    requires
        written.len() <= room < written.len() + 8,
        (before.len() + room) % 8 == 0,
    ensures
        ({
            let grown = before + zeros(room);
            grown.subrange(0, before.len() as int) + written + grown.subrange(
                (before.len() + written.len()) as int,
                grown.len() as int,
            )
        }) == pad8(before + written),
{
    let grown = before + zeros(room);
    let result = grown.subrange(0, before.len() as int) + written + grown.subrange(
        (before.len() + written.len()) as int,
        grown.len() as int,
    );
    lemma_pad_len(before.len() + written.len(), before.len() + room);
    assert(result =~= pad8(before + written));
}

/// A bit buffer that grows at its end.
///
/// Writing never fails. A buffer that has grown beyond what a bit view addresses no longer
/// keeps its bytes, and `into_bytes` says so.
pub struct BitBuffer {
    bytes: Vec<u8>,
    len: usize,
    full: bool,
    model: Ghost<Seq<bool>>,
}

impl BitBuffer {
    /// The bits written so far.
    pub closed spec fn bits(&self) -> Seq<bool> {
        self.model@
    }

    /// The buffer is consistent: its bytes hold the bits written, filled up with zeros,
    /// unless these are more than a buffer holds.
    pub closed spec fn wf(&self) -> bool {
        &&& self.full <==> self.model@.len() > 8 * MAX_BYTES
        &&& !self.full ==> {
            &&& self.len == self.model@.len()
            &&& self.bytes@.len() == (self.len + 7) / 8
            &&& byte_bits(self.bytes@) == pad8(self.model@)
        }
    }

    /// An empty buffer.
    pub fn new() -> (buf: BitBuffer)
        ensures
            buf.wf(),
            buf.bits() == Seq::<bool>::empty(),
    {
        let buf = BitBuffer { bytes: Vec::new(), len: 0, full: false, model: Ghost(Seq::empty()) };
        assert(byte_bits(buf.bytes@) =~= pad8(buf.model@));
        buf
    }

    /// Appends the `width` low binary digits of `value`, least significant first.
    #[verifier::rlimit(50)]
    pub fn write_uint(&mut self, value: u32, width: usize)
        requires
            old(self).wf(),
            1 <= width <= 32,
        ensures
            final(self).wf(),
            final(self).bits() == old(self).bits() + le_bits(value as nat, width as nat),
    {
        let ghost before = self.model@;
        let ghost after = before + le_bits(value as nat, width as nat);
        proof {
            lemma_le_bits_len(value as nat, width as nat);
        }
        if self.full || 8 * MAX_BYTES - self.len < width {
            self.full = true;
            self.model = Ghost(after);
            return ;
        }
        let end = self.len + width;
        while self.bytes.len() * 8 < end
            invariant
                end == self.len + width,
                end <= 8 * MAX_BYTES,
                self.len == before.len(),
                !self.full,
                self.model@ == before,
                self.bytes@.len() <= (end + 7) / 8,
                8 * self.bytes@.len() >= self.len,
                byte_bits(self.bytes@) == before + zeros((8 * self.bytes@.len() - self.len) as nat),
            decreases end + 8 - self.bytes@.len() * 8,
        {
            proof {
                lemma_byte_bits_push_zero(self.bytes@);
                assert(before + zeros((8 * self.bytes@.len() - self.len) as nat) + zeros(8)
                    =~= before + zeros((8 * (self.bytes@.len() + 1) - self.len) as nat));
            }
            self.bytes.push(0u8);
        }
        proof {
            lemma_overwrite_zeros(
                before,
                le_bits(value as nat, width as nat),
                (8 * self.bytes@.len() - self.len) as nat,
            );
        }
        store_le(&mut self.bytes, self.len, width, value);
        self.len = end;
        self.model = Ghost(after);
    }

    /// Appends one bit.
    pub fn write_bool(&mut self, flag: bool)
        requires
            old(self).wf(),
        ensures
            final(self).wf(),
            final(self).bits() == old(self).bits().push(flag),
    {
        let value: u32 = if flag { 1 } else { 0 };
        proof {
            reveal_with_fuel(le_bits, 2);
            assert(le_bits(value as nat, 1) =~= seq![flag]);
            assert(old(self).bits() + seq![flag] =~= old(self).bits().push(flag));
        }
        self.write_uint(value, 1);
    }

    /// Appends a byte.
    pub fn write_u8(&mut self, value: u8)
        requires
            old(self).wf(),
        ensures
            final(self).wf(),
            final(self).bits() == old(self).bits() + le_bits(value as nat, 8),
    {
        self.write_uint(value as u32, 8);
    }

    /// Appends a little-endian `u16`.
    pub fn write_u16(&mut self, value: u16)
        requires
            old(self).wf(),
        ensures
            final(self).wf(),
            final(self).bits() == old(self).bits() + le_bits(value as nat, 16),
    {
        self.write_uint(value as u32, 16);
    }

    /// Appends a little-endian `u32`.
    pub fn write_u32(&mut self, value: u32)
        requires
            old(self).wf(),
        ensures
            final(self).wf(),
            final(self).bits() == old(self).bits() + le_bits(value as nat, 32),
    {
        self.write_uint(value, 32);
    }

    /// Appends flags, one bit each.
    pub fn write_flags(&mut self, flags: &[bool])
        requires
            old(self).wf(),
        ensures
            final(self).wf(),
            final(self).bits() == old(self).bits() + flags@,
    {
        let ghost before = self.bits();
        let mut i: usize = 0;
        assert(before + flags@.take(0) =~= before);
        while i < flags.len()
            invariant
                i <= flags@.len(),
                self.wf(),
                self.bits() == before + flags@.take(i as int),
            decreases flags@.len() - i,
        {
            proof {
                assert((before + flags@.take(i as int)).push(flags@[i as int]) =~= before
                    + flags@.take(i + 1));
            }
            self.write_bool(flags[i]);
            i += 1;
        }
        assert(flags@.take(i as int) =~= flags@);
    }

    /// Appends bytes, each from its least significant bit.
    pub fn write_bytes(&mut self, bytes: &[u8])
        requires
            old(self).wf(),
        ensures
            final(self).wf(),
            final(self).bits() == old(self).bits() + byte_bits(bytes@),
    {
        let ghost before = self.bits();
        let mut i: usize = 0;
        assert(before + byte_bits(bytes@.take(0)) =~= before);
        while i < bytes.len()
            invariant
                i <= bytes@.len(),
                self.wf(),
                self.bits() == before + byte_bits(bytes@.take(i as int)),
            decreases bytes@.len() - i,
        {
            proof {
                let done = bytes@.take(i as int);
                let one = seq![bytes@[i as int]];
                lemma_byte_bits_concat(done, one);
                lemma_byte_bits_at(one, 0);
                assert(byte_bits(one).subrange(0, 8) =~= byte_bits(one));
                assert(done + one =~= bytes@.take(i + 1));
                assert(before + byte_bits(done) + byte_bits(one) =~= before + (byte_bits(done)
                    + byte_bits(one)));
            }
            self.write_u8(bytes[i]);
            i += 1;
        }
        assert(bytes@.take(i as int) =~= bytes@);
    }

    /// Appends zero bits up to the next byte boundary.
    pub fn align(&mut self)
        requires
            old(self).wf(),
        ensures
            final(self).wf(),
            final(self).bits() == pad8(old(self).bits()),
    {
        let ghost before = self.model@;
        if !self.full {
            let whole = (self.len + 7) / 8;
            assert(whole <= MAX_BYTES);
            self.len = whole * 8;
            proof {
                lemma_pad_len(before.len(), (whole * 8) as nat);
                assert(pad_len((whole * 8) as nat) == 0);
                assert(pad8(pad8(before)) =~= pad8(before));
            }
        }
        self.model = Ghost(pad8(before));
    }

    /// The bytes that hold the bits written, the last one filled up with zero bits.
    pub fn into_bytes(self) -> (r: Result<Vec<u8>, CodecError>)
        requires
            self.wf(),
        ensures
            r is Ok <==> self.bits().len() <= 8 * MAX_BYTES,
            r matches Ok(bytes) ==> byte_bits(bytes@) == pad8(self.bits()) && bytes@.len()
                <= MAX_BYTES,
            r matches Err(e) ==> e == CodecError::TooLarge,
    {
        if self.full {
            Err(CodecError::TooLarge)
        } else {
            Ok(self.bytes)
        }
    }
}

} // verus!

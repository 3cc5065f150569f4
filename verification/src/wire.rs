//! What was written is what is read: the laws of the primitive fields.

use crate::bits::{
    byte_bits, le_bits, lemma_bytes_of_byte_bits, lemma_le_bits_len, lemma_le_value_of_le_bits,
    pad8, pad_len, zeros,
};
use crate::cursor::{
    aligned, take_bool, take_bytes, take_flags, take_u16, take_u32, take_u8, take_uint,
};
use crate::error::CodecError;
use vstd::arithmetic::power2::{lemma2_to64, pow2};
use vstd::prelude::*;

verus! {

/// Whether `bits` begins with `pre`.
#[verifier::opaque]
pub open spec fn begins(bits: Seq<bool>, pre: Seq<bool>) -> bool {
    pre.is_prefix_of(bits)
}

/// Bits begin with themselves and with nothing.
pub proof fn lemma_begins_itself(bits: Seq<bool>)
    ensures
        begins(bits, bits),
        begins(bits, Seq::empty()),
{
    reveal(begins);
    assert(bits =~= bits.subrange(0, bits.len() as int));
}

/// Bits that begin with a buffer extended begin with the buffer, and what it was extended
/// by stands behind it.
pub proof fn lemma_begins_extended(bits: Seq<bool>, pre: Seq<bool>, more: Seq<bool>)
    requires
        begins(bits, pre + more),
    ensures
        begins(bits, pre),
        pre.len() + more.len() <= bits.len(),
        bits.subrange(pre.len() as int, (pre.len() + more.len()) as int) == more,
{
    reveal(begins);
    let whole = bits.subrange(0, (pre + more).len() as int);
    assert(pre =~= bits.subrange(0, pre.len() as int)) by {
        assert forall|i: int| 0 <= i < pre.len() implies pre[i] == bits[i] by {
            assert((pre + more)[i] == whole[i]);
        }
    }
    let window = bits.subrange(pre.len() as int, (pre.len() + more.len()) as int);
    assert forall|i: int| 0 <= i < more.len() implies window[i] == more[i] by {
        assert((pre + more)[pre.len() + i] == whole[pre.len() + i]);
    }
    assert(window =~= more);
}

/// Padding ends on the next byte boundary and keeps what was there.
pub proof fn lemma_begins_padded(bits: Seq<bool>, pre: Seq<bool>)
    requires
        begins(bits, pad8(pre)),
    ensures
        begins(bits, pre),
        pad8(pre).len() == aligned(pre.len()),
{
    lemma_begins_extended(bits, pre, zeros(pad_len(pre.len())));
}

/// A number written in `width` digits that hold it is the number read there.
pub proof fn lemma_take_uint_written(bits: Seq<bool>, pre: Seq<bool>, value: nat, width: nat)
    requires
        value < pow2(width),
        begins(bits, pre + le_bits(value, width)),
    ensures
        take_uint(bits, pre.len(), width) == Ok::<(nat, nat), CodecError>(
            (value, (pre + le_bits(value, width)).len()),
        ),
        begins(bits, pre),
{
    lemma_le_bits_len(value, width);
    lemma_le_value_of_le_bits(value, width);
    lemma_begins_extended(bits, pre, le_bits(value, width));
}

/// A byte written is the byte read there.
pub proof fn lemma_take_u8_written(bits: Seq<bool>, pre: Seq<bool>, value: u8)
    requires
        begins(bits, pre + le_bits(value as nat, 8)),
    ensures
        take_u8(bits, pre.len()) == Ok::<(u8, nat), CodecError>(
            (value, (pre + le_bits(value as nat, 8)).len()),
        ),
        (pre + le_bits(value as nat, 8)).len() == pre.len() + 8,
        begins(bits, pre),
{
    lemma2_to64();
    lemma_le_bits_len(value as nat, 8);
    lemma_take_uint_written(bits, pre, value as nat, 8);
}

/// A `u16` written is the `u16` read there.
pub proof fn lemma_take_u16_written(bits: Seq<bool>, pre: Seq<bool>, value: u16)
    requires
        begins(bits, pre + le_bits(value as nat, 16)),
    ensures
        take_u16(bits, pre.len()) == Ok::<(u16, nat), CodecError>(
            (value, (pre + le_bits(value as nat, 16)).len()),
        ),
        (pre + le_bits(value as nat, 16)).len() == pre.len() + 16,
        begins(bits, pre),
{
    lemma2_to64();
    lemma_le_bits_len(value as nat, 16);
    lemma_take_uint_written(bits, pre, value as nat, 16);
}

/// A `u32` written is the `u32` read there.
pub proof fn lemma_take_u32_written(bits: Seq<bool>, pre: Seq<bool>, value: u32)
    requires
        begins(bits, pre + le_bits(value as nat, 32)),
    ensures
        take_u32(bits, pre.len()) == Ok::<(u32, nat), CodecError>(
            (value, (pre + le_bits(value as nat, 32)).len()),
        ),
        (pre + le_bits(value as nat, 32)).len() == pre.len() + 32,
        begins(bits, pre),
{
    lemma2_to64();
    lemma_le_bits_len(value as nat, 32);
    lemma_take_uint_written(bits, pre, value as nat, 32);
}

/// A bit written is the bit read there.
pub proof fn lemma_take_bool_written(bits: Seq<bool>, pre: Seq<bool>, flag: bool)
    requires
        begins(bits, pre.push(flag)),
    ensures
        take_bool(bits, pre.len()) == Ok::<(bool, nat), CodecError>((flag, pre.push(flag).len())),
        begins(bits, pre),
{
    assert(pre.push(flag) =~= pre + seq![flag]);
    lemma_begins_extended(bits, pre, seq![flag]);
    assert(bits.subrange(pre.len() as int, pre.len() as int + 1)[0] == flag);
}

/// Flags written are the flags read there.
pub proof fn lemma_take_flags_written(bits: Seq<bool>, pre: Seq<bool>, flags: Seq<bool>)
    requires
        begins(bits, pre + flags),
    ensures
        take_flags(bits, pre.len(), flags.len()) == Ok::<(Seq<bool>, nat), CodecError>(
            (flags, (pre + flags).len()),
        ),
        begins(bits, pre),
{
    lemma_begins_extended(bits, pre, flags);
}

/// Bytes written are the bytes read there.
pub proof fn lemma_take_bytes_written(bits: Seq<bool>, pre: Seq<bool>, bytes: Seq<u8>)
    requires
        begins(bits, pre + byte_bits(bytes)),
    ensures
        take_bytes(bits, pre.len(), bytes.len()) == Ok::<(Seq<u8>, nat), CodecError>(
            (bytes, (pre + byte_bits(bytes)).len()),
        ),
        begins(bits, pre),
{
    lemma_begins_extended(bits, pre, byte_bits(bytes));
    lemma_bytes_of_byte_bits(bytes);
}

} // verus!

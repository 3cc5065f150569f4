//! The mathematical model of the wire: sequences of bits.

use vstd::arithmetic::power2::{lemma2_to64, lemma_pow2_unfold, pow2};
use vstd::prelude::*;

verus! {

/// Bit `i` of `byte`, bit 0 being the least significant.
pub open spec fn bit_of(byte: u8, i: int) -> bool {
    (byte >> (i as u8)) & 1u8 == 1u8
}

/// The bits of `bytes` in wire order: byte by byte, each from its least significant bit.
pub open spec fn byte_bits(bytes: Seq<u8>) -> Seq<bool> {
    Seq::new(8 * bytes.len(), |k: int| bit_of(bytes[k / 8], k % 8))
}

/// The number whose binary digits are `bits`, least significant first.
pub open spec fn le_value(bits: Seq<bool>) -> nat
    decreases bits.len(),
{
    if bits.len() == 0 {
        0
    } else {
        (if bits[0] { 1nat } else { 0nat }) + 2 * le_value(bits.drop_first())
    }
}

/// The `width` low binary digits of `value`, least significant first.
pub open spec fn le_bits(value: nat, width: nat) -> Seq<bool>
    decreases width,
{
    if width == 0 {
        Seq::empty()
    } else {
        seq![value % 2 == 1] + le_bits(value / 2, (width - 1) as nat)
    }
}

/// `n` zero bits.
pub open spec fn zeros(n: nat) -> Seq<bool> {
    Seq::new(n, |k: int| false)
}

/// The number of bits from `len` up to the next multiple of eight.
pub open spec fn pad_len(len: nat) -> nat {
    ((8 - len % 8) % 8) as nat
}

/// `bits` followed by zero bits up to the next multiple of eight.
pub open spec fn pad8(bits: Seq<bool>) -> Seq<bool> {
    bits + zeros(pad_len(bits.len()))
}

/// The bytes whose bits are `bits`, eight to a byte.
pub open spec fn bits_to_bytes(bits: Seq<bool>) -> Seq<u8> {
    Seq::new(bits.len() / 8, |j: int| le_value(bits.subrange(8 * j, 8 * j + 8)) as u8)
}

/// The number of flags of `flags` that are set.
pub open spec fn count_set(flags: Seq<bool>) -> nat
    decreases flags.len(),
{
    if flags.len() == 0 {
        0
    } else {
        count_set(flags.drop_last()) + if flags.last() {
            1nat
        } else {
            0nat
        }
    }
}

/// The digits of `width` binary digits are `width`.
pub proof fn lemma_le_bits_len(value: nat, width: nat)
    ensures
        le_bits(value, width).len() == width,
    decreases width,
{
    if width > 0 {
        lemma_le_bits_len(value / 2, (width - 1) as nat);
    }
}

/// Digits written for a value that fits in them read back as that value.
pub proof fn lemma_le_value_of_le_bits(value: nat, width: nat)
    requires
        value < pow2(width),
    ensures
        le_value(le_bits(value, width)) == value,
    decreases width,
{
    lemma_le_bits_len(value, width);
    if width == 0 {
        assert(pow2(0) == 1) by {
            lemma2_to64();
        }
    } else {
        let rest = le_bits(value / 2, (width - 1) as nat);
        let all = le_bits(value, width);
        lemma_pow2_unfold(width);
        lemma_le_value_of_le_bits(value / 2, (width - 1) as nat);
        assert(all.drop_first() =~= rest);
        assert(all[0] == (value % 2 == 1));
    }
}

/// A number read from `n` digits is below two to the `n`.
pub proof fn lemma_le_value_bound(bits: Seq<bool>)
    ensures
        le_value(bits) < pow2(bits.len()),
    decreases bits.len(),
{
    if bits.len() == 0 {
        assert(pow2(0) == 1) by {
            lemma2_to64();
        }
    } else {
        lemma_le_value_bound(bits.drop_first());
        lemma_pow2_unfold(bits.len());
    }
}

/// The eight binary digits of a byte are its bits.
pub proof fn lemma_byte_digits(byte: u8)
    ensures
        le_bits(byte as nat, 8) == Seq::new(8, |i: int| bit_of(byte, i)),
{
    let digits = le_bits(byte as nat, 8);
    let bits = Seq::new(8, |i: int| bit_of(byte, i));
    reveal_with_fuel(le_bits, 9);
    assert(digits.len() == 8);
    assert((byte % 2 == 1) == ((byte >> 0u8) & 1u8 == 1u8)) by (bit_vector);
    assert(((byte / 2) % 2 == 1) == ((byte >> 1u8) & 1u8 == 1u8)) by (bit_vector);
    assert(((byte / 4) % 2 == 1) == ((byte >> 2u8) & 1u8 == 1u8)) by (bit_vector);
    assert(((byte / 8) % 2 == 1) == ((byte >> 3u8) & 1u8 == 1u8)) by (bit_vector);
    assert(((byte / 16) % 2 == 1) == ((byte >> 4u8) & 1u8 == 1u8)) by (bit_vector);
    assert(((byte / 32) % 2 == 1) == ((byte >> 5u8) & 1u8 == 1u8)) by (bit_vector);
    assert(((byte / 64) % 2 == 1) == ((byte >> 6u8) & 1u8 == 1u8)) by (bit_vector);
    assert(((byte / 128) % 2 == 1) == ((byte >> 7u8) & 1u8 == 1u8)) by (bit_vector);
    let v = byte as nat;
    assert(v / 2 / 2 == v / 4);
    assert(v / 4 / 2 == v / 8);
    assert(v / 8 / 2 == v / 16);
    assert(v / 16 / 2 == v / 32);
    assert(v / 32 / 2 == v / 64);
    assert(v / 64 / 2 == v / 128);
    assert forall|i: int| 0 <= i < 8 implies digits[i] == bits[i] by {
        if i == 0 {
        } else if i == 1 {
        } else if i == 2 {
        } else if i == 3 {
        } else if i == 4 {
        } else if i == 5 {
        } else if i == 6 {
        } else {
        }
    }
    assert(digits =~= bits);
}

/// Each group of eight bits of a byte sequence is one of its bytes.
pub proof fn lemma_byte_bits_at(bytes: Seq<u8>, j: int)
    requires
        0 <= j < bytes.len(),
    ensures
        byte_bits(bytes).subrange(8 * j, 8 * j + 8) == le_bits(bytes[j] as nat, 8),
        le_value(byte_bits(bytes).subrange(8 * j, 8 * j + 8)) == bytes[j],
{
    let group = byte_bits(bytes).subrange(8 * j, 8 * j + 8);
    lemma_byte_digits(bytes[j]);
    assert forall|i: int| 0 <= i < 8 implies group[i] == bit_of(bytes[j], i) by {
        assert((8 * j + i) / 8 == j);
        assert((8 * j + i) % 8 == i);
    }
    assert(group =~= le_bits(bytes[j] as nat, 8));
    assert(pow2(8) == 256) by {
        lemma2_to64();
    }
    lemma_le_value_of_le_bits(bytes[j] as nat, 8);
}

/// Bytes are recovered from their bits.
pub proof fn lemma_bytes_of_byte_bits(bytes: Seq<u8>)
    ensures
        bits_to_bytes(byte_bits(bytes)) == bytes,
{
    let back = bits_to_bytes(byte_bits(bytes));
    assert(back.len() == bytes.len());
    assert forall|j: int| 0 <= j < bytes.len() implies back[j] == bytes[j] by {
        lemma_byte_bits_at(bytes, j);
    }
    assert(back =~= bytes);
}

/// The bits of bytes laid end to end are the bits of the bytes laid end to end.
pub proof fn lemma_byte_bits_concat(a: Seq<u8>, b: Seq<u8>)
    ensures
        byte_bits(a + b) == byte_bits(a) + byte_bits(b),
{
    let whole = byte_bits(a + b);
    let parts = byte_bits(a) + byte_bits(b);
    assert forall|k: int| 0 <= k < whole.len() implies whole[k] == parts[k] by {
        if k >= 8 * a.len() {
            assert((k - 8 * a.len()) / 8 == k / 8 - a.len());
            assert((k - 8 * a.len()) % 8 == k % 8);
        }
    }
    assert(whole =~= parts);
}

/// Two byte sequences with the same bits are the same.
pub proof fn lemma_byte_bits_injective(a: Seq<u8>, b: Seq<u8>)
    requires
        byte_bits(a) == byte_bits(b),
    ensures
        a == b,
{
    lemma_bytes_of_byte_bits(a);
    lemma_bytes_of_byte_bits(b);
}

} // verus!

//! The schema engine: what a field of a record is, and what holds of every field.

use crate::bits::{byte_bits, pad8};
use crate::buffer::BitBuffer;
use crate::cursor::{BitCursor, Taken, MAX_BYTES};
use crate::error::CodecError;
use crate::wire::{begins, lemma_begins_itself, lemma_begins_padded};
use vstd::prelude::*;

verus! {

/// A value with a wire form: it is read from a cursor and appended to a bit buffer.
///
/// The view of a value is its mathematical model; the wire form is stated over views.
pub trait BinaryField: View + Sized {
    /// The value that stands at `pos` in `bits`, and the position behind it.
    spec fn spec_parse(bits: Seq<bool>, pos: nat) -> Taken<Self::V>;

    /// `pre` with the wire form of `v` behind it.
    spec fn spec_build(v: Self::V, pre: Seq<bool>) -> Seq<bool>;

    /// Whether `v` has a wire form: every count and every length in it can be written.
    spec fn representable(v: Self::V) -> bool;

    /// Whether `v` is read back from its wire form: it is representable, of a supported
    /// version, and its optional fields are there exactly when its version has them.
    spec fn valid(v: Self::V) -> bool;

    /// `v` with its counts and lengths set to what its arrays hold.
    spec fn normal(v: Self::V) -> Self::V;

    /// Decodes a value at the cursor.
    fn parse<'a>(cur: BitCursor<'a>) -> (r: Result<(Self, BitCursor<'a>), CodecError>)
        requires
            cur.wf(),
        ensures
            cur.yields(r, Self::spec_parse(cur.bits(), cur.pos())),
    ;

    /// Appends the wire form of the value, or refuses a value that has none.
    fn build(&self, buf: &mut BitBuffer) -> (r: Result<(), CodecError>)
        requires
            old(buf).wf(),
        ensures
            final(buf).wf(),
            r is Ok <==> Self::representable(self@),
            r is Ok ==> final(buf).bits() == Self::spec_build(self@, old(buf).bits()),
            r matches Err(e) ==> e == CodecError::ValueOutOfRange,
    ;

    /// A valid value written is the value read, its counts and lengths recomputed, and
    /// reading ends where writing ended. Writing only appends.
    proof fn lemma_parse_build(v: Self::V, pre: Seq<bool>, bits: Seq<bool>)
        requires
            Self::valid(v),
            begins(bits, Self::spec_build(v, pre)),
        ensures
            Self::spec_parse(bits, pre.len()) == Ok::<(Self::V, nat), CodecError>(
                (Self::normal(v), Self::spec_build(v, pre).len()),
            ),
            begins(bits, pre),
            Self::representable(v),
    ;

    /// What is read is valid: it has a wire form and is read back from it.
    proof fn lemma_parsed_valid(bits: Seq<bool>, pos: nat)
        ensures
            match Self::spec_parse(bits, pos) {
                Ok((v, _)) => Self::valid(v),
                Err(_) => true,
            },
    ;
}

/// Whether what stands at `pos`, if anything, is valid.
pub open spec fn reads_valid<T: BinaryField>(bits: Seq<bool>, pos: nat) -> bool {
    match T::spec_parse(bits, pos) {
        Ok((v, _)) => T::valid(v),
        Err(_) => true,
    }
}

/// Whether the `count` items that stand from `pos`, if they do, are `count` valid items.
pub open spec fn reads_valid_seq<T: BinaryField>(bits: Seq<bool>, pos: nat, count: nat) -> bool {
    match spec_parse_seq::<T>(bits, pos, count) {
        Ok((items, _)) => items.len() == count && all_valid::<T>(items),
        Err(_) => true,
    }
}

/// The views of the items of `items`.
pub open spec fn views<T: View>(items: Seq<T>) -> Seq<T::V> {
    Seq::new(items.len(), |i: int| items[i]@)
}

/// The `count` items that stand one behind the other from `pos`.
pub open spec fn spec_parse_seq<T: BinaryField>(bits: Seq<bool>, pos: nat, count: nat) -> Taken<
    Seq<T::V>,
>
    decreases count,
{
    if count == 0 {
        Ok((Seq::empty(), pos))
    } else {
        match T::spec_parse(bits, pos) {
            Err(e) => Err(e),
            Ok((first, next)) => match spec_parse_seq::<T>(bits, next, (count - 1) as nat) {
                Err(e) => Err(e),
                Ok((rest, end)) => Ok((seq![first] + rest, end)),
            },
        }
    }
}

/// `pre` with the wire forms of `items` behind it, in their order.
pub open spec fn spec_build_seq<T: BinaryField>(items: Seq<T::V>, pre: Seq<bool>) -> Seq<bool>
    decreases items.len(),
{
    if items.len() == 0 {
        pre
    } else {
        spec_build_seq::<T>(items.drop_first(), T::spec_build(items[0], pre))
    }
}

/// Whether every item has a wire form.
pub open spec fn all_representable<T: BinaryField>(items: Seq<T::V>) -> bool {
    forall|i: int| 0 <= i < items.len() ==> T::representable(#[trigger] items[i])
}

/// Whether every item is valid.
pub open spec fn all_valid<T: BinaryField>(items: Seq<T::V>) -> bool {
    forall|i: int| 0 <= i < items.len() ==> T::valid(#[trigger] items[i])
}

/// The items, each with its counts and lengths set to what its arrays hold.
pub open spec fn all_normal<T: BinaryField>(items: Seq<T::V>) -> Seq<T::V> {
    Seq::new(items.len(), |i: int| T::normal(items[i]))
}

/// Decodes `count` items that stand one behind the other.
pub fn parse_seq<'a, T: BinaryField>(cur: BitCursor<'a>, count: usize) -> (r: Result<
    (Vec<T>, BitCursor<'a>),
    CodecError,
>)
    requires
        cur.wf(),
    ensures
        match r {
            Ok((items, next)) => {
                &&& spec_parse_seq::<T>(cur.bits(), cur.pos(), count as nat) == Ok::<
                    (Seq<T::V>, nat),
                    CodecError,
                >((views(items@), next.pos()))
                &&& next.wf()
                &&& next.bits() == cur.bits()
                &&& items@.len() == count
            },
            Err(e) => spec_parse_seq::<T>(cur.bits(), cur.pos(), count as nat) == Err::<
                (Seq<T::V>, nat),
                CodecError,
            >(e),
        },
{
    let mut items: Vec<T> = Vec::new();
    let mut at = cur;
    let mut i: usize = 0;
    assert(views(items@) =~= Seq::<T::V>::empty());
    while i < count
        invariant
            i <= count,
            at.wf(),
            at.bits() == cur.bits(),
            items@.len() == i,
            spec_parse_seq::<T>(cur.bits(), cur.pos(), count as nat) == (match spec_parse_seq::<T>(
                cur.bits(),
                at.pos(),
                (count - i) as nat,
            ) {
                Ok((rest, end)) => Ok::<(Seq<T::V>, nat), CodecError>((views(items@) + rest, end)),
                Err(e) => Err::<(Seq<T::V>, nat), CodecError>(e),
            }),
        decreases count - i,
    {
        let ghost before = views(items@);
        match T::parse(at) {
            Ok((item, next)) => {
                proof {
                    let tail = spec_parse_seq::<T>(cur.bits(), next.pos(), (count - i - 1) as nat);
                    if let Ok((rest, end)) = tail {
                        assert(before + (seq![item@] + rest) =~= views(items@.push(item)) + rest);
                    }
                }
                items.push(item);
                at = next;
            },
            Err(e) => {
                return Err(e);
            },
        }
        i += 1;
    }
    assert(views(items@) + Seq::<T::V>::empty() =~= views(items@));
    Ok((items, at))
}

/// Appends the wire forms of `items`, or refuses the first item that has none.
pub fn build_seq<T: BinaryField>(items: &Vec<T>, buf: &mut BitBuffer) -> (r: Result<
    (),
    CodecError,
>)
    requires
        old(buf).wf(),
    ensures
        final(buf).wf(),
        r is Ok <==> all_representable::<T>(views(items@)),
        r is Ok ==> final(buf).bits() == spec_build_seq::<T>(views(items@), old(buf).bits()),
        r matches Err(e) ==> e == CodecError::ValueOutOfRange,
{
    let ghost all = views(items@);
    let ghost start = buf.bits();
    let mut i: usize = 0;
    assert(all.subrange(0, all.len() as int) =~= all);
    while i < items.len()
        invariant
            i <= items@.len(),
            all == views(items@),
            buf.wf(),
            forall|j: int| 0 <= j < i ==> T::representable(#[trigger] all[j]),
            spec_build_seq::<T>(all, start) == spec_build_seq::<T>(
                all.subrange(i as int, all.len() as int),
                buf.bits(),
            ),
        decreases items@.len() - i,
    {
        proof {
            let left = all.subrange(i as int, all.len() as int);
            assert(left.drop_first() =~= all.subrange(i + 1, all.len() as int));
            assert(left[0] == items@[i as int]@);
        }
        match items[i].build(buf) {
            Ok(()) => {},
            Err(e) => {
                assert(!T::representable(all[i as int]));
                return Err(e);
            },
        }
        i += 1;
    }
    Ok(())
}

/// Items written one behind the other are the items read. Writing only appends.
pub proof fn lemma_parse_build_seq<T: BinaryField>(
    items: Seq<T::V>,
    pre: Seq<bool>,
    bits: Seq<bool>,
)
    requires
        all_valid::<T>(items),
        begins(bits, spec_build_seq::<T>(items, pre)),
    ensures
        spec_parse_seq::<T>(bits, pre.len(), items.len()) == Ok::<(Seq<T::V>, nat), CodecError>(
            (all_normal::<T>(items), spec_build_seq::<T>(items, pre).len()),
        ),
        begins(bits, pre),
        all_representable::<T>(items),
    decreases items.len(),
{
    if items.len() == 0 {
        assert(all_normal::<T>(items) =~= Seq::<T::V>::empty());
    } else {
        let head = T::spec_build(items[0], pre);
        let rest = items.drop_first();
        assert(T::valid(items[0]));
        assert forall|i: int| 0 <= i < rest.len() implies T::valid(#[trigger] rest[i]) by {
            assert(rest[i] == items[i + 1]);
        }
        lemma_parse_build_seq::<T>(rest, head, bits);
        T::lemma_parse_build(items[0], pre, bits);
        assert(seq![T::normal(items[0])] + all_normal::<T>(rest) =~= all_normal::<T>(items));
        assert forall|i: int| 0 <= i < items.len() implies T::representable(
            #[trigger] items[i],
        ) by {
            if i > 0 {
                assert(items[i] == rest[i - 1]);
            }
        }
    }
}

/// Items read one behind the other are as many as were asked for, and all valid.
pub proof fn lemma_parsed_valid_seq<T: BinaryField>(bits: Seq<bool>, pos: nat, count: nat)
    ensures
        reads_valid_seq::<T>(bits, pos, count),
    decreases count,
{
    if count > 0 {
        T::lemma_parsed_valid(bits, pos);
        if let Ok((first, next)) = T::spec_parse(bits, pos) {
            lemma_parsed_valid_seq::<T>(bits, next, (count - 1) as nat);
            if let Ok((rest, _)) = spec_parse_seq::<T>(bits, next, (count - 1) as nat) {
                let items = seq![first] + rest;
                assert forall|i: int| 0 <= i < items.len() implies T::valid(
                    #[trigger] items[i],
                ) by {
                    if i > 0 {
                        assert(items[i] == rest[i - 1]);
                    }
                }
            }
        }
    }
}

/// The record that `bytes` hold from their first bit on; bits behind it are ignored.
pub open spec fn spec_decode<T: BinaryField>(bytes: Seq<u8>) -> Result<T::V, CodecError> {
    if bytes.len() > MAX_BYTES {
        Err(CodecError::TooLarge)
    } else {
        match T::spec_parse(byte_bits(bytes), 0) {
            Ok((v, _)) => Ok(v),
            Err(e) => Err(e),
        }
    }
}

/// The bits of the bytes that hold `v`: its wire form, filled up to whole bytes with zeros.
pub open spec fn spec_encode<T: BinaryField>(v: T::V) -> Seq<bool> {
    pad8(T::spec_build(v, Seq::empty()))
}

/// Decodes the record that `bytes` start with.
pub fn decode<T: BinaryField>(bytes: &[u8]) -> (r: Result<T, CodecError>)
    ensures
        match r {
            Ok(v) => spec_decode::<T>(bytes@) == Ok::<T::V, CodecError>(v@),
            Err(e) => spec_decode::<T>(bytes@) == Err::<T::V, CodecError>(e),
        },
{
    let cur = match BitCursor::new(bytes) {
        Ok(cur) => cur,
        Err(e) => {
            return Err(e);
        },
    };
    match T::parse(cur) {
        Ok((v, _)) => Ok(v),
        Err(e) => Err(e),
    }
}

/// Encodes a record into bytes.
///
/// Fails with `ValueOutOfRange` exactly when the record has no wire form, and with
/// `TooLarge` exactly when it has one that is longer than a bit view can address.
pub fn encode<T: BinaryField>(v: &T) -> (r: Result<Vec<u8>, CodecError>)
    ensures
        match r {
            Ok(bytes) => {
                &&& T::representable(v@)
                &&& byte_bits(bytes@) == spec_encode::<T>(v@)
                &&& bytes@.len() <= MAX_BYTES
            },
            Err(e) => if T::representable(v@) {
                e == CodecError::TooLarge && spec_encode::<T>(v@).len() > 8 * MAX_BYTES
            } else {
                e == CodecError::ValueOutOfRange
            },
        },
{
    let mut buf = BitBuffer::new();
    match v.build(&mut buf) {
        Ok(()) => {},
        Err(e) => {
            return Err(e);
        },
    }
    buf.into_bytes()
}

/// What is decoded is valid: it can be encoded, and its bytes decode to it again.
pub proof fn lemma_decoded_valid<T: BinaryField>(bytes: Seq<u8>)
    ensures
        spec_decode::<T>(bytes) matches Ok(v) ==> T::valid(v),
{
    T::lemma_parsed_valid(byte_bits(bytes), 0);
}

/// Round trip: the bytes that encode a valid record decode to that record, its counts
/// and lengths recomputed from what its arrays hold.
pub proof fn lemma_decode_encode<T: BinaryField>(v: T::V, bytes: Seq<u8>)
    requires
        T::valid(v),
        byte_bits(bytes) == spec_encode::<T>(v),
        bytes.len() <= MAX_BYTES,
    ensures
        spec_decode::<T>(bytes) == Ok::<T::V, CodecError>(T::normal(v)),
{
    let built = T::spec_build(v, Seq::empty());
    lemma_begins_itself(byte_bits(bytes));
    lemma_begins_padded(byte_bits(bytes), built);
    T::lemma_parse_build(v, Seq::empty(), byte_bits(bytes));
}

} // verus!

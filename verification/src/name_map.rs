//! A map from names to values, kept as a list in the order of the names.

use vstd::prelude::*;
use vstd::utf8::{encode_utf8, encode_utf8_decode_utf8};

verus! {

/// Whether `a` stands before `b` in the lexicographic order of bytes.
pub open spec fn bytes_less(a: Seq<u8>, b: Seq<u8>) -> bool
    decreases a.len(),
{
    if b.len() == 0 {
        false
    } else if a.len() == 0 {
        true
    } else if a[0] != b[0] {
        a[0] < b[0]
    } else {
        bytes_less(a.drop_first(), b.drop_first())
    }
}

/// Whether the name `a` stands before the name `b`: the order of their UTF-8 bytes.
pub open spec fn name_less(a: Seq<char>, b: Seq<char>) -> bool {
    bytes_less(encode_utf8(a), encode_utf8(b))
}

/// Of two different byte sequences one stands before the other.
pub proof fn lemma_bytes_less_total(a: Seq<u8>, b: Seq<u8>)
    ensures
        a == b || bytes_less(a, b) || bytes_less(b, a),
        !(bytes_less(a, b) && bytes_less(b, a)),
        a == b ==> !bytes_less(a, b),
    decreases a.len(),
{
    if a.len() == 0 || b.len() == 0 {
        if a.len() == 0 && b.len() == 0 {
            assert(a =~= b);
        }
    } else if a[0] == b[0] {
        lemma_bytes_less_total(a.drop_first(), b.drop_first());
        if a.drop_first() == b.drop_first() {
            assert(a =~= seq![a[0]] + a.drop_first());
            assert(b =~= seq![b[0]] + b.drop_first());
        }
    }
}

/// What stands before a sequence that stands before a third stands before the third.
pub proof fn lemma_bytes_less_transitive(a: Seq<u8>, b: Seq<u8>, c: Seq<u8>)
    requires
        bytes_less(a, b),
        bytes_less(b, c),
    ensures
        bytes_less(a, c),
    decreases a.len(),
{
    if a.len() > 0 && a[0] == b[0] && b[0] == c[0] {
        lemma_bytes_less_transitive(a.drop_first(), b.drop_first(), c.drop_first());
    }
}

/// Of two different names one stands before the other, and never both.
pub proof fn lemma_name_less_total(a: Seq<char>, b: Seq<char>)
    ensures
        a == b || name_less(a, b) || name_less(b, a),
        !(name_less(a, b) && name_less(b, a)),
        !name_less(a, a),
{
    lemma_bytes_less_total(encode_utf8(a), encode_utf8(b));
    lemma_bytes_less_total(encode_utf8(a), encode_utf8(a));
    encode_utf8_decode_utf8(a);
    encode_utf8_decode_utf8(b);
}

/// Whether the bytes of `a` stand before those of `b`.
pub fn less(a: &str, b: &str) -> (r: bool)
    ensures
        r == name_less(a@, b@),
{
    let x = a.as_bytes();
    let y = b.as_bytes();
    let mut i: usize = 0;
    assert(x@.skip(0) =~= x@ && y@.skip(0) =~= y@);
    while i < x.len() && i < y.len()
        invariant
            i <= x@.len(),
            i <= y@.len(),
            x@ == encode_utf8(a@),
            y@ == encode_utf8(b@),
            bytes_less(x@, y@) == bytes_less(x@.skip(i as int), y@.skip(i as int)),
        decreases x@.len() - i,
    {
        proof {
            assert(x@.skip(i as int).drop_first() =~= x@.skip(i + 1));
            assert(y@.skip(i as int).drop_first() =~= y@.skip(i + 1));
            assert(x@.skip(i as int)[0] == x@[i as int]);
            assert(y@.skip(i as int)[0] == y@[i as int]);
        }
        if x[i] != y[i] {
            return x[i] < y[i];
        }
        i += 1;
    }
    x.len() < y.len()
}

/// Whether two names are the same.
pub fn same(a: &str, b: &str) -> (r: bool)
    ensures
        r == (a@ == b@),
{
    proof {
        lemma_name_less_total(a@, b@);
    }
    !less(a, b) && !less(b, a)
}

/// The entries of a map: names and values.
pub type Entries<V> = Seq<(Seq<char>, V)>;

/// Whether the names of `entries` stand each before the next.
pub open spec fn sorted<V>(entries: Entries<V>) -> bool {
    forall|i: int| 0 <= i < entries.len() - 1 ==> name_less(#[trigger] entries[i].0, entries[i + 1].0)
}

/// `entries` with `value` under `name`: in the place of the entry of that name, if there is
/// one, else where the order of the names puts it.
pub open spec fn put<V>(entries: Entries<V>, name: Seq<char>, value: V) -> Entries<V>
    decreases entries.len(),
{
    if entries.len() == 0 {
        seq![(name, value)]
    } else if entries[0].0 == name {
        entries.update(0, (name, value))
    } else if name_less(name, entries[0].0) {
        seq![(name, value)] + entries
    } else {
        seq![entries[0]] + put(entries.drop_first(), name, value)
    }
}

/// The value under `name` in `entries`, if there is one.
pub open spec fn lookup<V>(entries: Entries<V>, name: Seq<char>) -> Option<V>
    decreases entries.len(),
{
    if entries.len() == 0 {
        None
    } else if entries[0].0 == name {
        Some(entries[0].1)
    } else {
        lookup(entries.drop_first(), name)
    }
}

/// Putting keeps the order of the names.
pub proof fn lemma_put_sorted<V>(entries: Entries<V>, name: Seq<char>, value: V)
    requires
        sorted(entries),
    ensures
        sorted(put(entries, name, value)),
        put(entries, name, value).len() >= 1,
        put(entries, name, value)[0].0 == name || (entries.len() > 0 && put(
            entries,
            name,
            value,
        )[0].0 == entries[0].0),
    decreases entries.len(),
{
    let out = put(entries, name, value);
    if entries.len() == 0 {
    } else if entries[0].0 == name {
        assert forall|i: int| 0 <= i < out.len() - 1 implies name_less(
            #[trigger] out[i].0,
            out[i + 1].0,
        ) by {
            assert(name_less(entries[i].0, entries[i + 1].0));
        }
    } else if name_less(name, entries[0].0) {
        assert forall|i: int| 0 <= i < out.len() - 1 implies name_less(
            #[trigger] out[i].0,
            out[i + 1].0,
        ) by {
            if i > 0 {
                assert(name_less(entries[i - 1].0, entries[i].0));
            }
        }
    } else {
        let rest = entries.drop_first();
        assert forall|i: int| 0 <= i < rest.len() - 1 implies name_less(
            #[trigger] rest[i].0,
            rest[i + 1].0,
        ) by {
            assert(name_less(entries[i + 1].0, entries[i + 2].0));
        }
        lemma_put_sorted(rest, name, value);
        lemma_name_less_total(name, entries[0].0);
        let tail = put(rest, name, value);
        assert forall|i: int| 0 <= i < out.len() - 1 implies name_less(
            #[trigger] out[i].0,
            out[i + 1].0,
        ) by {
            if i == 0 {
                if tail[0].0 != name {
                    assert(name_less(entries[0].0, entries[1].0));
                }
            } else {
                assert(name_less(tail[i - 1].0, tail[i].0));
            }
        }
    }
}

/// In sorted entries each name stands before every later one.
pub proof fn lemma_sorted_pairs<V>(entries: Entries<V>, i: int, j: int)
    requires
        sorted(entries),
        0 <= i < j < entries.len(),
    ensures
        name_less(entries[i].0, entries[j].0),
    decreases j - i,
{
    if j > i + 1 {
        lemma_sorted_pairs(entries, i, j - 1);
        assert(name_less(entries[j - 1].0, entries[j].0));
        lemma_bytes_less_transitive(
            encode_utf8(entries[i].0),
            encode_utf8(entries[j - 1].0),
            encode_utf8(entries[j].0),
        );
    }
}

/// A name that stands behind every name of the entries is put at their end.
pub proof fn lemma_put_last<V>(entries: Entries<V>, name: Seq<char>, value: V)
    requires
        forall|i: int| 0 <= i < entries.len() ==> name_less(#[trigger] entries[i].0, name),
    ensures
        put(entries, name, value) == entries.push((name, value)),
    decreases entries.len(),
{
    if entries.len() == 0 {
        assert(put(entries, name, value) =~= entries.push((name, value)));
    } else {
        let rest = entries.drop_first();
        assert(name_less(entries[0].0, name));
        lemma_name_less_total(entries[0].0, name);
        assert forall|i: int| 0 <= i < rest.len() implies name_less(#[trigger] rest[i].0, name) by {
            assert(name_less(entries[i + 1].0, name));
        }
        lemma_put_last(rest, name, value);
        assert(seq![entries[0]] + rest.push((name, value)) =~= entries.push((name, value)));
    }
}

/// Sorted entries put one after the other, each under its name, are the entries.
pub proof fn lemma_put_all<V>(entries: Entries<V>, built: Entries<V>)
    requires
        sorted(entries),
        entries.len() > 0,
        built == entries.drop_last(),
    ensures
        put(built, entries.last().0, entries.last().1) == entries,
{
    let last = entries.last();
    assert forall|i: int| 0 <= i < built.len() implies name_less(
        #[trigger] built[i].0,
        last.0,
    ) by {
        lemma_sorted_pairs(entries, i, entries.len() - 1);
    }
    lemma_put_last(built, last.0, last.1);
    assert(built.push(last) =~= entries);
}

/// What was put under a name is found under it, and nothing else has changed.
pub proof fn lemma_lookup_put<V>(entries: Entries<V>, name: Seq<char>, value: V, other: Seq<char>)
    ensures
        lookup(put(entries, name, value), other) == if other == name {
            Some(value)
        } else {
            lookup(entries, other)
        },
    decreases entries.len(),
{
    let out = put(entries, name, value);
    reveal_with_fuel(lookup, 2);
    if entries.len() == 0 {
        assert(out.drop_first() =~= Seq::<(Seq<char>, V)>::empty());
    } else if entries[0].0 == name {
        assert(out.drop_first() =~= entries.drop_first());
    } else if name_less(name, entries[0].0) {
        assert(out.drop_first() =~= entries);
    } else {
        lemma_lookup_put(entries.drop_first(), name, value, other);
        assert(out.drop_first() =~= put(entries.drop_first(), name, value));
    }
}

/// A map from names to values. No name occurs twice, and the entries are walked in the
/// order of their names.
#[derive(Debug, PartialEq, Eq)]
pub struct NameMap<V> {
    entries: Vec<(String, V)>,
}

impl<V> View for NameMap<V> {
    type V = Seq<(Seq<char>, V)>;

    /// The entries in the order in which they are walked.
    closed spec fn view(&self) -> Seq<(Seq<char>, V)> {
        Seq::new(self.entries@.len(), |i: int| (self.entries@[i].0@, self.entries@[i].1))
    }
}

impl<V> NameMap<V> {
    /// The names stand in their order, so none occurs twice.
    pub open spec fn wf(&self) -> bool {
        sorted(self@)
    }

    /// The map without entries.
    pub fn new() -> (map: NameMap<V>)
        ensures
            map.wf(),
            map@ == Seq::<(Seq<char>, V)>::empty(),
    {
        let map = NameMap { entries: Vec::new() };
        assert(map@ =~= Seq::<(Seq<char>, V)>::empty());
        map
    }

    /// The number of entries.
    pub fn len(&self) -> (n: usize)
        ensures
            n == self@.len(),
    {
        self.entries.len()
    }

    /// The name of entry `i`.
    pub fn name(&self, i: usize) -> (name: &str)
        requires
            i < self@.len(),
        ensures
            name@ == self@[i as int].0,
    {
        self.entries[i].0.as_str()
    }

    /// The value of entry `i`.
    pub fn value(&self, i: usize) -> (value: &V)
        requires
            i < self@.len(),
        ensures
            *value == self@[i as int].1,
    {
        &self.entries[i].1
    }

    /// The value under `name`, if there is one.
    pub fn get(&self, name: &str) -> (value: Option<&V>)
        ensures
            match value {
                Some(v) => lookup(self@, name@) == Some(*v),
                None => lookup(self@, name@) is None,
            },
    {
        let mut i: usize = 0;
        assert(self@.skip(0) =~= self@);
        while i < self.entries.len()
            invariant
                i <= self@.len(),
                self@.len() == self.entries@.len(),
                lookup(self@, name@) == lookup(self@.skip(i as int), name@),
            decreases self@.len() - i,
        {
            proof {
                assert(self@.skip(i as int).drop_first() =~= self@.skip(i + 1));
                assert(self@.skip(i as int)[0] == self@[i as int]);
            }
            if same(self.entries[i].0.as_str(), name) {
                return Some(&self.entries[i].1);
            }
            i += 1;
        }
        None
    }

    /// Puts `value` under `name`, in the place of what was there under that name.
    #[verifier::rlimit(50)]
    pub fn insert(&mut self, name: String, value: V)
        requires
            old(self).wf(),
        ensures
            final(self).wf(),
            final(self)@ == put(old(self)@, name@, value),
    {
        let ghost before = self@;
        let mut i: usize = 0;
        proof {
            lemma_put_sorted(before, name@, value);
            assert(before.skip(0) =~= before);
            assert(before.take(0) + put(before, name@, value) =~= put(before, name@, value));
        }
        while i < self.entries.len()
            invariant
                i <= before.len(),
                before == old(self)@,
                self@ == before,
                self@.len() == self.entries@.len(),
                sorted(put(before, name@, value)),
                put(before, name@, value) == before.take(i as int) + put(
                    before.skip(i as int),
                    name@,
                    value,
                ),
            decreases before.len() - i,
        {
            let ghost left = before.skip(i as int);
            proof {
                assert(left.drop_first() =~= before.skip(i + 1));
                assert(left[0] == before[i as int]);
                assert(before.take(i as int) + (seq![left[0]] + put(
                    left.drop_first(),
                    name@,
                    value,
                )) =~= before.take(i + 1) + put(before.skip(i + 1), name@, value));
            }
            if same(self.entries[i].0.as_str(), name.as_str()) {
                self.entries[i] = (name, value);
                proof {
                    assert(self@ =~= before.take(i as int) + left.update(0, (name@, value)));
                }
                return ;
            }
            if less(name.as_str(), self.entries[i].0.as_str()) {
                self.entries.insert(i, (name, value));
                proof {
                    assert(self@ =~= before.take(i as int) + (seq![(name@, value)] + left));
                }
                return ;
            }
            i += 1;
        }
        proof {
            assert(before.skip(i as int) =~= Seq::<(Seq<char>, V)>::empty());
            assert(before.take(i as int) =~= before);
        }
        self.entries.push((name, value));
        proof {
            assert(self@ =~= before + seq![(name@, value)]);
        }
    }
}

} // verus!

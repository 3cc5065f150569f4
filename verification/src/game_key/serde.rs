use super::field::{GameKey, GameKeyView, Key, KeyList, KeyType, KeyView};
use crate::bits::byte_bits;
use crate::cursor::MAX_BYTES;
use crate::field::{
    all_normal, lemma_decode_encode, spec_decode, spec_encode, views, BinaryField,
};
use crate::name_map::{lemma_put_all, put, sorted, Entries, NameMap};
use crate::phi_base::{PhiString, VarInt};
use vstd::prelude::*;
use vstd::std_specs::convert::FromSpecImpl;

verus! {

/// What one key has unlocked, by name. A capability without a value is absent.
#[derive(Clone, Copy, Debug, PartialEq, Eq)]
pub struct SerializableKey {
    pub read_collection_piece_num: Option<u8>,
    pub unlock_single: Option<bool>,
    pub unlock_collection_piece_num: Option<u8>,
    pub unlock_illustration: Option<bool>,
    pub unlock_avatar: Option<bool>,
}

impl Default for SerializableKey {
    fn default() -> (r: SerializableKey)
        ensures
            r.read_collection_piece_num is None,
            r.unlock_single is None,
            r.unlock_collection_piece_num is None,
            r.unlock_illustration is None,
            r.unlock_avatar is None,
    {
        SerializableKey {
            read_collection_piece_num: None,
            unlock_single: None,
            unlock_collection_piece_num: None,
            unlock_illustration: None,
            unlock_avatar: None,
        }
    }
}

/// One if the capability is there, else zero.
pub open spec fn one_if(present: bool) -> int {
    if present {
        1
    } else {
        0
    }
}

/// The flag byte that stands for a capability: the one at `slot`, where the flag bytes go
/// that far and the capability is there.
pub open spec fn flag_at(present: bool, flag: Seq<u8>, slot: int) -> Option<u8> {
    if present && slot < flag.len() {
        Some(flag[slot])
    } else {
        None
    }
}

/// A flag byte read as a truth value: one is true.
pub open spec fn truth(byte: Option<u8>) -> Option<bool> {
    match byte {
        Some(b) => Some(b == 1),
        None => None,
    }
}

/// The flag bytes that a count stands for: the count, if there is one.
pub open spec fn count_bytes(count: Option<u8>) -> Seq<u8> {
    match count {
        Some(n) => seq![n],
        None => Seq::empty(),
    }
}

/// The flag bytes that a truth value stands for: one for true, zero for false.
pub open spec fn truth_bytes(value: Option<bool>) -> Seq<u8> {
    match value {
        Some(true) => seq![1u8],
        Some(false) => seq![0u8],
        None => Seq::empty(),
    }
}

impl SerializableKey {
    /// The canonical form of a key with capability bits `t` and flag bytes `flag`: each
    /// capability that is there takes the next flag byte, in the order of the bits.
    pub open spec fn of_raw(t: KeyType, flag: Seq<u8>) -> SerializableKey {
        let s1 = one_if(t.exist_read_collection_piece_num);
        let s2 = s1 + one_if(t.exist_unlcok_single);
        let s3 = s2 + one_if(t.exist_unlock_collection_piece_num);
        let s4 = s3 + one_if(t.exist_unlock_illustration);
        SerializableKey {
            read_collection_piece_num: flag_at(t.exist_read_collection_piece_num, flag, 0),
            unlock_single: truth(flag_at(t.exist_unlcok_single, flag, s1)),
            unlock_collection_piece_num: flag_at(t.exist_unlock_collection_piece_num, flag, s2),
            unlock_illustration: truth(flag_at(t.exist_unlock_illustration, flag, s3)),
            unlock_avatar: truth(flag_at(t.exist_unlock_avatar, flag, s4)),
        }
    }

    /// The capability bits of the raw form: a bit for each value that is there.
    pub open spec fn raw_type(self) -> KeyType {
        KeyType {
            exist_read_collection_piece_num: self.read_collection_piece_num is Some,
            exist_unlcok_single: self.unlock_single is Some,
            exist_unlock_collection_piece_num: self.unlock_collection_piece_num is Some,
            exist_unlock_illustration: self.unlock_illustration is Some,
            exist_unlock_avatar: self.unlock_avatar is Some,
        }
    }

    /// The flag bytes of the raw form: the values that are there, in the order of the bits.
    pub open spec fn raw_flag(self) -> Seq<u8> {
        count_bytes(self.read_collection_piece_num) + truth_bytes(self.unlock_single)
            + count_bytes(self.unlock_collection_piece_num) + truth_bytes(
            self.unlock_illustration,
        ) + truth_bytes(self.unlock_avatar)
    }

    /// The raw form of the key `name` with these values.
    pub open spec fn raw(self, name: Seq<char>) -> KeyView {
        KeyView {
            key: name,
            length: (self.raw_flag().len() + 1) as u8,
            type_: self.raw_type(),
            flag: self.raw_flag(),
        }
    }

    /// The raw form of canonical values has these values as its canonical form.
    #[verifier::rlimit(50)]
    pub proof fn lemma_raw_and_back(self)
        ensures
            SerializableKey::of_raw(self.raw_type(), self.raw_flag()) == self,
            self.raw_flag().len() <= 5,
    {
    }

    /// Whether a key has the shape that canonical values give: one flag byte for each
    /// capability bit, and zero or one where the capability is a truth value.
    pub open spec fn has_canonical_shape(t: KeyType, flag: Seq<u8>) -> bool {
        let s1 = one_if(t.exist_read_collection_piece_num);
        let s2 = s1 + one_if(t.exist_unlcok_single);
        let s3 = s2 + one_if(t.exist_unlock_collection_piece_num);
        let s4 = s3 + one_if(t.exist_unlock_illustration);
        &&& flag.len() == s4 + one_if(t.exist_unlock_avatar)
        &&& t.exist_unlcok_single ==> flag[s1] <= 1
        &&& t.exist_unlock_illustration ==> flag[s3] <= 1
        &&& t.exist_unlock_avatar ==> flag[s4] <= 1
    }

    /// The canonical form of a key of canonical shape has that key as its raw form: its
    /// capability bits and its flag bytes come back as they were.
    #[verifier::rlimit(50)]
    pub proof fn lemma_canonical_and_back(t: KeyType, flag: Seq<u8>)
        requires
            SerializableKey::has_canonical_shape(t, flag),
        ensures
            SerializableKey::of_raw(t, flag).raw_type() == t,
            SerializableKey::of_raw(t, flag).raw_flag() == flag,
    {
        assert(SerializableKey::of_raw(t, flag).raw_flag() =~= flag);
    }

    /// The raw form of canonical values has canonical shape.
    #[verifier::rlimit(50)]
    pub proof fn lemma_raw_has_canonical_shape(self)
        ensures
            SerializableKey::has_canonical_shape(self.raw_type(), self.raw_flag()),
    {
        let a = count_bytes(self.read_collection_piece_num);
        let b = truth_bytes(self.unlock_single);
        let c = count_bytes(self.unlock_collection_piece_num);
        let d = truth_bytes(self.unlock_illustration);
        let e = truth_bytes(self.unlock_avatar);
        let flag = self.raw_flag();
        assert(flag == a + b + c + d + e);
        assert(flag.len() == a.len() + b.len() + c.len() + d.len() + e.len());
        if self.unlock_single is Some {
            assert(flag[a.len() as int] == b[0]);
        }
        if self.unlock_illustration is Some {
            assert(flag[(a.len() + b.len() + c.len()) as int] == d[0]);
        }
        if self.unlock_avatar is Some {
            assert(flag[(a.len() + b.len() + c.len() + d.len()) as int] == e[0]);
        }
    }
}

impl From<Key> for SerializableKey {
    fn from(k: Key) -> (sk: SerializableKey)
        ensures
            sk == SerializableKey::of_raw(k.type_, k.flag@),
    {
        canonical_key(&k)
    }
}

impl FromSpecImpl<Key> for SerializableKey {
    open spec fn obeys_from_spec() -> bool {
        true
    }

    open spec fn from_spec(k: Key) -> SerializableKey {
        SerializableKey::of_raw(k.type_, k.flag@)
    }
}

impl From<(String, SerializableKey)> for Key {
    fn from(pair: (String, SerializableKey)) -> (k: Key)
        ensures
            k@ == pair.1.raw(pair.0@),
    {
        let (key_str, sk) = pair;
        let mut flag: Vec<u8> = Vec::new();
        let mut ktype = KeyType {
            exist_read_collection_piece_num: false,
            exist_unlcok_single: false,
            exist_unlock_collection_piece_num: false,
            exist_unlock_illustration: false,
            exist_unlock_avatar: false,
        };
        if let Some(v) = sk.read_collection_piece_num {
            ktype.exist_read_collection_piece_num = true;
            flag.push(v);
        }
        if let Some(v) = sk.unlock_single {
            ktype.exist_unlcok_single = true;
            flag.push(if v { 1 } else { 0 });
        }
        if let Some(v) = sk.unlock_collection_piece_num {
            ktype.exist_unlock_collection_piece_num = true;
            flag.push(v);
        }
        if let Some(v) = sk.unlock_illustration {
            ktype.exist_unlock_illustration = true;
            flag.push(if v { 1 } else { 0 });
        }
        if let Some(v) = sk.unlock_avatar {
            ktype.exist_unlock_avatar = true;
            flag.push(if v { 1 } else { 0 });
        }
        assert(flag@ =~= sk.raw_flag());
        Key { key: PhiString(key_str), length: flag.len() as u8 + 1, type_: ktype, flag }
    }
}

/// The conversion builds values that a specification cannot name; what it returns is
/// stated on `from` itself, over views.
impl FromSpecImpl<(String, SerializableKey)> for Key {
    open spec fn obeys_from_spec() -> bool {
        false
    }

    open spec fn from_spec(pair: (String, SerializableKey)) -> Key {
        arbitrary()
    }
}

/// The key record in canonical form: the keys by name, the other fields as they are.
#[derive(Debug, PartialEq, Eq)]
pub struct SerializableGameKey {
    pub version: u8,
    pub keys: NameMap<SerializableKey>,
    pub lanota_read_keys: [bool; 6],
    pub camellia_read_key: [bool; 8],
    pub side_story4_begin_read_key: Option<bool>,
    pub old_score_cleared_v390: Option<bool>,
}

/// The model of a canonical key record: its keys in the order of their names.
pub struct SerializableGameKeyView {
    pub version: u8,
    pub keys: Entries<SerializableKey>,
    pub lanota_read_keys: Seq<bool>,
    pub camellia_read_key: Seq<bool>,
    pub side_story4_begin_read_key: Option<bool>,
    pub old_score_cleared_v390: Option<bool>,
}

impl View for SerializableGameKey {
    type V = SerializableGameKeyView;

    open spec fn view(&self) -> SerializableGameKeyView {
        SerializableGameKeyView {
            version: self.version,
            keys: self.keys@,
            lanota_read_keys: self.lanota_read_keys@,
            camellia_read_key: self.camellia_read_key@,
            side_story4_begin_read_key: self.side_story4_begin_read_key,
            old_score_cleared_v390: self.old_score_cleared_v390,
        }
    }
}

/// The keys of a list by name: each is put under its name in turn, so of two keys of one
/// name the later one stays.
pub open spec fn keys_by_name(list: Seq<KeyView>) -> Entries<SerializableKey>
    decreases list.len(),
{
    if list.len() == 0 {
        Seq::empty()
    } else {
        put(
            keys_by_name(list.drop_last()),
            list.last().key,
            SerializableKey::of_raw(list.last().type_, list.last().flag),
        )
    }
}

/// The raw keys of canonical entries, in the order of the entries.
pub open spec fn keys_in_order(entries: Entries<SerializableKey>) -> Seq<KeyView> {
    Seq::new(entries.len(), |i: int| entries[i].1.raw(entries[i].0))
}

/// The number of keys as the count field holds it.
pub open spec fn count_of(len: nat) -> VarInt {
    if len > u16::MAX {
        VarInt(u16::MAX)
    } else {
        VarInt(len as u16)
    }
}

impl SerializableGameKeyView {
    /// The canonical form of a key record.
    pub open spec fn of_raw(gk: GameKeyView) -> SerializableGameKeyView {
        SerializableGameKeyView {
            version: gk.version,
            keys: keys_by_name(gk.key_list.key_list),
            lanota_read_keys: gk.lanota_read_keys,
            camellia_read_key: gk.camellia_read_key,
            side_story4_begin_read_key: gk.side_story4_begin_read_key,
            old_score_cleared_v390: gk.old_score_cleared_v390,
        }
    }

    /// The key record that the canonical form stands for.
    pub open spec fn raw(self) -> GameKeyView {
        GameKeyView {
            version: self.version,
            key_list: super::field::KeyListView {
                key_sum: count_of(self.keys.len()),
                key_list: keys_in_order(self.keys),
            },
            lanota_read_keys: self.lanota_read_keys,
            camellia_read_key: self.camellia_read_key,
            side_story4_begin_read_key: self.side_story4_begin_read_key,
            old_score_cleared_v390: self.old_score_cleared_v390,
        }
    }
}

/// Canonical keys are the canonical form of their raw form: nothing is lost on the way
/// to the raw record and back.
pub proof fn lemma_keys_there_and_back(entries: Entries<SerializableKey>)
    requires
        sorted(entries),
    ensures
        keys_by_name(keys_in_order(entries)) == entries,
    decreases entries.len(),
{
    let list = keys_in_order(entries);
    if entries.len() == 0 {
        assert(entries =~= Seq::<(Seq<char>, SerializableKey)>::empty());
    } else {
        let shorter = entries.drop_last();
        assert(list.drop_last() =~= keys_in_order(shorter));
        assert forall|i: int| 0 <= i < shorter.len() - 1 implies crate::name_map::name_less(
            #[trigger] shorter[i].0,
            shorter[i + 1].0,
        ) by {
            assert(crate::name_map::name_less(entries[i].0, entries[i + 1].0));
        }
        lemma_keys_there_and_back(shorter);
        entries.last().1.lemma_raw_and_back();
        lemma_put_all(entries, shorter);
    }
}

/// A canonical key record is the canonical form of the raw record that it stands for.
pub proof fn lemma_game_key_there_and_back(c: SerializableGameKeyView)
    requires
        sorted(c.keys),
    ensures
        SerializableGameKeyView::of_raw(c.raw()) == c,
{
    lemma_keys_there_and_back(c.keys);
}

/// The canonical form does not look at the length bytes of the keys.
pub proof fn lemma_keys_by_name_of_normal(list: Seq<KeyView>)
    ensures
        keys_by_name(all_normal::<Key>(list)) == keys_by_name(list),
    decreases list.len(),
{
    let normal = all_normal::<Key>(list);
    if list.len() > 0 {
        assert(normal.drop_last() =~= all_normal::<Key>(list.drop_last()));
        lemma_keys_by_name_of_normal(list.drop_last());
    }
}

/// A canonical key record survives the wire: where the raw record that it stands for is
/// valid, the bytes of that record decode to a record of the same canonical form.
pub proof fn lemma_game_key_survives_the_wire(c: SerializableGameKeyView, bytes: Seq<u8>)
    requires
        sorted(c.keys),
        GameKey::valid(c.raw()),
        byte_bits(bytes) == spec_encode::<GameKey>(c.raw()),
        bytes.len() <= MAX_BYTES,
    ensures
        match spec_decode::<GameKey>(bytes) {
            Ok(raw) => SerializableGameKeyView::of_raw(raw) == c,
            Err(_) => false,
        },
{
    lemma_decode_encode::<GameKey>(c.raw(), bytes);
    lemma_keys_by_name_of_normal(c.raw().key_list.key_list);
    lemma_game_key_there_and_back(c);
}

impl From<GameKey> for SerializableGameKey {
    fn from(gk: GameKey) -> (sgk: SerializableGameKey)
        ensures
            sgk@ == SerializableGameKeyView::of_raw(gk@),
            sgk.keys.wf(),
    {
        let mut keys: NameMap<SerializableKey> = NameMap::new();
        let ghost list = gk@.key_list.key_list;
        let mut i: usize = 0;
        assert(list.take(0) =~= Seq::<KeyView>::empty());
        while i < gk.key_list.key_list.len()
            invariant
                i <= list.len(),
                list == views(gk.key_list.key_list@),
                keys.wf(),
                keys@ == keys_by_name(list.take(i as int)),
            decreases list.len() - i,
        {
            let k = &gk.key_list.key_list[i];
            let name = k.key.0.clone();
            let sk = canonical_key(k);
            proof {
                assert(list.take(i + 1).drop_last() =~= list.take(i as int));
                assert(list.take(i + 1).last() == k@);
            }
            keys.insert(name, sk);
            i += 1;
        }
        assert(list.take(i as int) =~= list);
        SerializableGameKey {
            version: gk.version,
            keys,
            lanota_read_keys: gk.lanota_read_keys,
            camellia_read_key: gk.camellia_read_key,
            side_story4_begin_read_key: gk.side_story4_begin_read_key,
            old_score_cleared_v390: gk.old_score_cleared_v390,
        }
    }
}

/// The conversion builds values that a specification cannot name; what it returns is
/// stated on `from` itself, over views.
impl FromSpecImpl<GameKey> for SerializableGameKey {
    open spec fn obeys_from_spec() -> bool {
        false
    }

    open spec fn from_spec(gk: GameKey) -> SerializableGameKey {
        arbitrary()
    }
}

/// The canonical form of a key: each capability that is there takes the next flag byte.
#[verifier::rlimit(50)]
fn canonical_key(k: &Key) -> (sk: SerializableKey)
    ensures
        sk == SerializableKey::of_raw(k.type_, k.flag@),
{
    let mut flag_idx: usize = 0;
    let mut result = SerializableKey {
        read_collection_piece_num: None,
        unlock_single: None,
        unlock_collection_piece_num: None,
        unlock_illustration: None,
        unlock_avatar: None,
    };
    if k.type_.exist_read_collection_piece_num && flag_idx < k.flag.len() {
        result.read_collection_piece_num = Some(k.flag[flag_idx]);
        flag_idx += 1;
    }
    if k.type_.exist_unlcok_single && flag_idx < k.flag.len() {
        result.unlock_single = Some(k.flag[flag_idx] == 1);
        flag_idx += 1;
    }
    if k.type_.exist_unlock_collection_piece_num && flag_idx < k.flag.len() {
        result.unlock_collection_piece_num = Some(k.flag[flag_idx]);
        flag_idx += 1;
    }
    if k.type_.exist_unlock_illustration && flag_idx < k.flag.len() {
        result.unlock_illustration = Some(k.flag[flag_idx] == 1);
        flag_idx += 1;
    }
    if k.type_.exist_unlock_avatar && flag_idx < k.flag.len() {
        result.unlock_avatar = Some(k.flag[flag_idx] == 1);
    }
    result
}

impl From<SerializableGameKey> for GameKey {
    fn from(sgk: SerializableGameKey) -> (gk: GameKey)
        ensures
            gk@ == sgk@.raw(),
    {
        let n = sgk.keys.len();
        let mut key_list: Vec<Key> = Vec::new();
        let mut i: usize = 0;
        while i < n
            invariant
                i <= n,
                n == sgk.keys@.len(),
                key_list@.len() == i,
                forall|j: int|
                    0 <= j < i ==> (#[trigger] key_list@[j])@ == sgk.keys@[j].1.raw(
                        sgk.keys@[j].0,
                    ),
            decreases n - i,
        {
            let name = sgk.keys.name(i).to_owned();
            let sk = *sgk.keys.value(i);
            key_list.push(Key::from((name, sk)));
            i += 1;
        }
        assert(views(key_list@) =~= keys_in_order(sgk.keys@));
        let key_sum = if n > u16::MAX as usize {
            VarInt(u16::MAX)
        } else {
            VarInt(n as u16)
        };
        GameKey {
            version: sgk.version,
            key_list: KeyList { key_sum, key_list },
            lanota_read_keys: sgk.lanota_read_keys,
            camellia_read_key: sgk.camellia_read_key,
            side_story4_begin_read_key: sgk.side_story4_begin_read_key,
            old_score_cleared_v390: sgk.old_score_cleared_v390,
        }
    }
}

/// The conversion builds values that a specification cannot name; what it returns is
/// stated on `from` itself, over views.
impl FromSpecImpl<SerializableGameKey> for GameKey {
    open spec fn obeys_from_spec() -> bool {
        false
    }

    open spec fn from_spec(sgk: SerializableGameKey) -> GameKey {
        arbitrary()
    }
}

} // verus!

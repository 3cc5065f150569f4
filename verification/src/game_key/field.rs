use crate::bits::{byte_bits, le_bits, pad8};
use crate::buffer::BitBuffer;
use crate::cursor::{
    aligned, take_bool, take_bytes, take_flags, take_u8, BitCursor, Taken,
};
use crate::error::CodecError;
use crate::field::{
    all_normal, all_representable, all_valid, build_seq, lemma_parse_build_seq,
    lemma_parsed_valid_seq, parse_seq,
    reads_valid, reads_valid_seq, spec_build_seq, spec_parse_seq, views, BinaryField,
};
use crate::phi_base::{PhiString, VarInt, VARINT_MAX};
use crate::wire::{
    lemma_begins_padded, lemma_take_bool_written, lemma_take_bytes_written,
    lemma_take_flags_written, lemma_take_u8_written,
};
use vstd::prelude::*;

verus! {

/// The oldest version of the key record that is decoded.
pub const MIN_KEY_VERSION: u8 = 2;

/// The most flag bytes that a key can carry: its length byte counts them and itself.
pub const MAX_KEY_FLAGS: usize = 254;

/// Which capabilities a key has a value for, one bit each.
#[derive(Clone, Copy, Debug, PartialEq, Eq, Structural)]
pub struct KeyType {
    pub exist_read_collection_piece_num: bool,
    pub exist_unlcok_single: bool,
    pub exist_unlock_collection_piece_num: bool,
    pub exist_unlock_illustration: bool,
    pub exist_unlock_avatar: bool,
}

impl View for KeyType {
    type V = KeyType;

    open spec fn view(&self) -> KeyType {
        *self
    }
}

impl Default for KeyType {
    fn default() -> (r: KeyType)
        ensures
            !r.exist_read_collection_piece_num,
            !r.exist_unlcok_single,
            !r.exist_unlock_collection_piece_num,
            !r.exist_unlock_illustration,
            !r.exist_unlock_avatar,
    {
        KeyType {
            exist_read_collection_piece_num: false,
            exist_unlcok_single: false,
            exist_unlock_collection_piece_num: false,
            exist_unlock_illustration: false,
            exist_unlock_avatar: false,
        }
    }
}

impl KeyType {
    /// The capability bits in wire order.
    pub open spec fn flags(self) -> Seq<bool> {
        seq![
            self.exist_read_collection_piece_num,
            self.exist_unlcok_single,
            self.exist_unlock_collection_piece_num,
            self.exist_unlock_illustration,
            self.exist_unlock_avatar,
        ]
    }
}

impl BinaryField for KeyType {
    open spec fn spec_parse(bits: Seq<bool>, pos: nat) -> Taken<KeyType> {
        match take_flags(bits, pos, 5) {
            Err(e) => Err(e),
            Ok((f, next)) => Ok(
                (
                    KeyType {
                        exist_read_collection_piece_num: f[0],
                        exist_unlcok_single: f[1],
                        exist_unlock_collection_piece_num: f[2],
                        exist_unlock_illustration: f[3],
                        exist_unlock_avatar: f[4],
                    },
                    next,
                ),
            ),
        }
    }

    open spec fn spec_build(v: KeyType, pre: Seq<bool>) -> Seq<bool> {
        pre + v.flags()
    }

    open spec fn representable(v: KeyType) -> bool {
        true
    }

    open spec fn valid(v: KeyType) -> bool {
        true
    }

    open spec fn normal(v: KeyType) -> KeyType {
        v
    }

    fn parse<'a>(cur: BitCursor<'a>) -> (r: Result<(KeyType, BitCursor<'a>), CodecError>) {
        let (f, next) = match cur.read_flags::<5>() {
            Ok(x) => x,
            Err(e) => {
                return Err(e);
            },
        };
        Ok(
            (
                KeyType {
                    exist_read_collection_piece_num: f[0],
                    exist_unlcok_single: f[1],
                    exist_unlock_collection_piece_num: f[2],
                    exist_unlock_illustration: f[3],
                    exist_unlock_avatar: f[4],
                },
                next,
            ),
        )
    }

    fn build(&self, buf: &mut BitBuffer) -> (r: Result<(), CodecError>) {
        let f = [
            self.exist_read_collection_piece_num,
            self.exist_unlcok_single,
            self.exist_unlock_collection_piece_num,
            self.exist_unlock_illustration,
            self.exist_unlock_avatar,
        ];
        assert(f@ =~= self.flags());
        buf.write_flags(&f);
        Ok(())
    }

    proof fn lemma_parse_build(v: KeyType, pre: Seq<bool>, bits: Seq<bool>) {
        lemma_take_flags_written(bits, pre, v.flags());
    }

    proof fn lemma_parsed_valid(bits: Seq<bool>, pos: nat) {
    }
}

/// One key: its name, the capabilities it has a value for, and the values, one byte each.
///
/// `length` is one more than the number of bytes in `flag`; it is written from `flag`.
#[derive(Debug, PartialEq, Eq)]
pub struct Key {
    pub key: PhiString,
    pub length: u8,
    pub type_: KeyType,
    pub flag: Vec<u8>,
}

/// The model of a key.
pub struct KeyView {
    pub key: Seq<char>,
    pub length: u8,
    pub type_: KeyType,
    pub flag: Seq<u8>,
}

impl View for Key {
    type V = KeyView;

    open spec fn view(&self) -> KeyView {
        KeyView { key: self.key@, length: self.length, type_: self.type_, flag: self.flag@ }
    }
}

impl Default for Key {
    fn default() -> (r: Key)
        ensures
            r.key@ == Seq::<char>::empty(),
            r.length == 0,
            r.type_.flags() == seq![false, false, false, false, false],
            r.flag@ == Seq::<u8>::empty(),
    {
        Key {
            key: PhiString(String::new()),
            length: 0,
            type_: KeyType::default(),
            flag: Vec::new(),
        }
    }
}

impl Key {
    /// The number of flag bytes that a length byte announces.
    pub open spec fn spec_flag_len(length: u8) -> nat {
        if length == 0 {
            0
        } else {
            (length - 1) as nat
        }
    }

    /// The number of flag bytes that the key's length byte announces.
    pub fn get_flag_len(&self) -> (n: usize)
        ensures
            n == Key::spec_flag_len(self.length),
    {
        if self.length == 0 {
            0
        } else {
            (self.length - 1) as usize
        }
    }
}

impl BinaryField for Key {
    open spec fn spec_parse(bits: Seq<bool>, pos: nat) -> Taken<KeyView> {
        match PhiString::spec_parse(bits, pos) {
            Err(e) => Err(e),
            Ok((key, n1)) => match take_u8(bits, n1) {
                Err(e) => Err(e),
                Ok((length, n2)) => match KeyType::spec_parse(bits, n2) {
                    Err(e) => Err(e),
                    Ok((type_, n3)) => match take_bytes(
                        bits,
                        aligned(n3),
                        Key::spec_flag_len(length),
                    ) {
                        Err(e) => Err(e),
                        Ok((flag, n4)) => Ok((KeyView { key, length, type_, flag }, n4)),
                    },
                },
            },
        }
    }

    open spec fn spec_build(v: KeyView, pre: Seq<bool>) -> Seq<bool> {
        let b1 = PhiString::spec_build(v.key, pre);
        let b2 = b1 + le_bits(v.flag.len() + 1, 8);
        let b3 = KeyType::spec_build(v.type_, b2);
        pad8(b3) + byte_bits(v.flag)
    }

    open spec fn representable(v: KeyView) -> bool {
        &&& PhiString::representable(v.key)
        &&& v.flag.len() <= MAX_KEY_FLAGS
    }

    open spec fn valid(v: KeyView) -> bool {
        Self::representable(v)
    }

    open spec fn normal(v: KeyView) -> KeyView {
        KeyView { length: (v.flag.len() + 1) as u8, ..v }
    }

    #[verifier::rlimit(50)]
    fn parse<'a>(cur: BitCursor<'a>) -> (r: Result<(Key, BitCursor<'a>), CodecError>) {
        let (key, cur1) = match PhiString::parse(cur) {
            Ok(x) => x,
            Err(e) => {
                return Err(e);
            },
        };
        let (length, cur2) = match cur1.read_u8() {
            Ok(x) => x,
            Err(e) => {
                return Err(e);
            },
        };
        let (type_, cur3) = match KeyType::parse(cur2) {
            Ok(x) => x,
            Err(e) => {
                return Err(e);
            },
        };
        let mut s = Key { key, length, type_, flag: Vec::new() };
        let (flag, cur4) = match cur3.align().read_bytes(s.get_flag_len()) {
            Ok(x) => x,
            Err(e) => {
                return Err(e);
            },
        };
        s.flag = flag;
        Ok((s, cur4))
    }

    #[verifier::rlimit(50)]
    fn build(&self, buf: &mut BitBuffer) -> (r: Result<(), CodecError>) {
        if !self.key.fits() || self.flag.len() > MAX_KEY_FLAGS {
            return Err(CodecError::ValueOutOfRange);
        }
        let _ = self.key.build(buf);
        buf.write_u8((self.flag.len() + 1) as u8);
        let _ = self.type_.build(buf);
        buf.align();
        buf.write_bytes(self.flag.as_slice());
        Ok(())
    }

    #[verifier::rlimit(50)]
    proof fn lemma_parse_build(v: KeyView, pre: Seq<bool>, bits: Seq<bool>) {
        let b1 = PhiString::spec_build(v.key, pre);
        let b2 = b1 + le_bits(v.flag.len() + 1, 8);
        let b3 = KeyType::spec_build(v.type_, b2);
        lemma_take_bytes_written(bits, pad8(b3), v.flag);
        lemma_begins_padded(bits, b3);
        KeyType::lemma_parse_build(v.type_, b2, bits);
        lemma_take_u8_written(bits, b1, (v.flag.len() + 1) as u8);
        PhiString::lemma_parse_build(v.key, pre, bits);
    }

    #[verifier::rlimit(50)]
    proof fn lemma_parsed_valid(bits: Seq<bool>, pos: nat) {
        assert forall|p: nat| #![trigger PhiString::spec_parse(bits, p)] reads_valid::<PhiString>(bits, p) by {
            PhiString::lemma_parsed_valid(bits, p);
        }
    }
}

/// The keys of a save. `key_sum` is their number; it is written from `key_list`.
#[derive(Debug, PartialEq, Eq)]
pub struct KeyList {
    pub key_sum: VarInt,
    pub key_list: Vec<Key>,
}

/// The model of a list of keys.
pub struct KeyListView {
    pub key_sum: VarInt,
    pub key_list: Seq<KeyView>,
}

impl View for KeyList {
    type V = KeyListView;

    open spec fn view(&self) -> KeyListView {
        KeyListView { key_sum: self.key_sum, key_list: views(self.key_list@) }
    }
}

impl Default for KeyList {
    fn default() -> (r: KeyList)
        ensures
            r.key_sum == VarInt(0),
            r.key_list@.len() == 0,
    {
        KeyList {
            key_sum: VarInt(0),
            key_list: Vec::new(),
        }
    }
}

impl BinaryField for KeyList {
    open spec fn spec_parse(bits: Seq<bool>, pos: nat) -> Taken<KeyListView> {
        match VarInt::spec_parse(bits, pos) {
            Err(e) => Err(e),
            Ok((key_sum, n1)) => match spec_parse_seq::<Key>(bits, n1, key_sum.0 as nat) {
                Err(e) => Err(e),
                Ok((key_list, n2)) => Ok((KeyListView { key_sum, key_list }, n2)),
            },
        }
    }

    open spec fn spec_build(v: KeyListView, pre: Seq<bool>) -> Seq<bool> {
        let b1 = VarInt::spec_build(VarInt(v.key_list.len() as u16), pre);
        spec_build_seq::<Key>(v.key_list, b1)
    }

    open spec fn representable(v: KeyListView) -> bool {
        &&& v.key_list.len() <= VARINT_MAX
        &&& all_representable::<Key>(v.key_list)
    }

    open spec fn valid(v: KeyListView) -> bool {
        Self::representable(v)
    }

    open spec fn normal(v: KeyListView) -> KeyListView {
        KeyListView {
            key_sum: VarInt(v.key_list.len() as u16),
            key_list: all_normal::<Key>(v.key_list),
        }
    }

    #[verifier::rlimit(50)]
    fn parse<'a>(cur: BitCursor<'a>) -> (r: Result<(KeyList, BitCursor<'a>), CodecError>) {
        let (key_sum, cur1) = match VarInt::parse(cur) {
            Ok(x) => x,
            Err(e) => {
                return Err(e);
            },
        };
        let (key_list, cur2) = match parse_seq::<Key>(cur1, key_sum.0 as usize) {
            Ok(x) => x,
            Err(e) => {
                return Err(e);
            },
        };
        Ok((KeyList { key_sum, key_list }, cur2))
    }

    #[verifier::rlimit(50)]
    fn build(&self, buf: &mut BitBuffer) -> (r: Result<(), CodecError>) {
        if self.key_list.len() > VARINT_MAX as usize {
            return Err(CodecError::ValueOutOfRange);
        }
        let _ = VarInt(self.key_list.len() as u16).build(buf);
        build_seq::<Key>(&self.key_list, buf)
    }

    #[verifier::rlimit(50)]
    proof fn lemma_parse_build(v: KeyListView, pre: Seq<bool>, bits: Seq<bool>) {
        let count = VarInt(v.key_list.len() as u16);
        let b1 = VarInt::spec_build(count, pre);
        assert(all_valid::<Key>(v.key_list));
        lemma_parse_build_seq::<Key>(v.key_list, b1, bits);
        VarInt::lemma_parse_build(count, pre, bits);
    }

    #[verifier::rlimit(50)]
    proof fn lemma_parsed_valid(bits: Seq<bool>, pos: nat) {
        assert forall|p: nat, n: nat| #![trigger spec_parse_seq::<Key>(bits, p, n)] reads_valid_seq::<Key>(bits, p, n) by {
            lemma_parsed_valid_seq::<Key>(bits, p, n);
        }
        assert forall|p: nat| #![trigger VarInt::spec_parse(bits, p)] reads_valid::<VarInt>(bits, p) by {
            VarInt::lemma_parsed_valid(bits, p);
        }
    }
}

/// The keys of a player and the story flags kept with them.
///
/// The last two fields came with version 3 and are absent before.
#[derive(Debug, PartialEq, Eq)]
pub struct GameKey {
    pub version: u8,
    pub key_list: KeyList,
    pub lanota_read_keys: [bool; 6],
    pub camellia_read_key: [bool; 8],
    pub side_story4_begin_read_key: Option<bool>,
    pub old_score_cleared_v390: Option<bool>,
}

/// The model of a key record.
pub struct GameKeyView {
    pub version: u8,
    pub key_list: KeyListView,
    pub lanota_read_keys: Seq<bool>,
    pub camellia_read_key: Seq<bool>,
    pub side_story4_begin_read_key: Option<bool>,
    pub old_score_cleared_v390: Option<bool>,
}

impl View for GameKey {
    type V = GameKeyView;

    open spec fn view(&self) -> GameKeyView {
        GameKeyView {
            version: self.version,
            key_list: self.key_list@,
            lanota_read_keys: self.lanota_read_keys@,
            camellia_read_key: self.camellia_read_key@,
            side_story4_begin_read_key: self.side_story4_begin_read_key,
            old_score_cleared_v390: self.old_score_cleared_v390,
        }
    }
}

impl Default for GameKey {
    fn default() -> (r: GameKey)
        ensures
            r.version == 0,
            r.key_list.key_sum == VarInt(0),
            r.key_list.key_list@.len() == 0,
            forall|i: int| 0 <= i < 6 ==> !r.lanota_read_keys[i],
            forall|i: int| 0 <= i < 8 ==> !r.camellia_read_key[i],
            r.side_story4_begin_read_key is None,
            r.old_score_cleared_v390 is None,
    {
        GameKey {
            version: 0,
            key_list: KeyList { key_sum: VarInt(0), key_list: Vec::new() },
            lanota_read_keys: [false; 6],
            camellia_read_key: [false; 8],
            side_story4_begin_read_key: None,
            old_score_cleared_v390: None,
        }
    }
}

impl GameKey {
    /// The reason to reject the record's version, if it is older than the oldest supported.
    pub fn check_version(&self) -> (reason: Option<String>)
        ensures
            reason is Some <==> self.version < MIN_KEY_VERSION,
            reason matches Some(text) ==> text@ == "Not supported"@,
    {
        if self.version < MIN_KEY_VERSION {
            Some("Not supported".to_owned())
        } else {
            None
        }
    }

    /// Whether the record has the fields that came with version 3.
    pub fn is_version_at_least_3(&self) -> (b: bool)
        ensures
            b == (self.version >= 3),
    {
        self.version >= 3
    }
}

/// Version gating. A record older than version 2 is rejected for its version, whatever
/// follows the version. A record that is read has the two fields of version 3 exactly when
/// its version is 3 or later.
pub proof fn lemma_key_version_gate(bits: Seq<bool>, pos: nat)
    ensures
        take_u8(bits, pos) matches Ok((version, _)) ==> (version < MIN_KEY_VERSION
            ==> GameKey::spec_parse(bits, pos) == Err::<(GameKeyView, nat), CodecError>(
            CodecError::UnsupportedVersion { version },
        )),
        GameKey::spec_parse(bits, pos) matches Ok((v, _)) ==> v.version >= MIN_KEY_VERSION && (
        v.side_story4_begin_read_key is Some <==> v.version >= 3) && (v.old_score_cleared_v390
            is Some <==> v.version >= 3),
{
}

impl BinaryField for GameKey {
    open spec fn spec_parse(bits: Seq<bool>, pos: nat) -> Taken<GameKeyView> {
        match take_u8(bits, pos) {
            Err(e) => Err(e),
            Ok((version, n1)) => if version < MIN_KEY_VERSION {
                Err(CodecError::UnsupportedVersion { version })
            } else {
                match KeyList::spec_parse(bits, n1) {
                    Err(e) => Err(e),
                    Ok((key_list, n2)) => match take_flags(bits, n2, 6) {
                        Err(e) => Err(e),
                        Ok((lanota, n3)) => match take_flags(bits, aligned(n3), 8) {
                            Err(e) => Err(e),
                            Ok((camellia, n4)) => {
                                let most = GameKeyView {
                                    version,
                                    key_list,
                                    lanota_read_keys: lanota,
                                    camellia_read_key: camellia,
                                    side_story4_begin_read_key: None,
                                    old_score_cleared_v390: None,
                                };
                                if version >= 3 {
                                    match take_bool(bits, n4) {
                                        Err(e) => Err(e),
                                        Ok((side, n5)) => match take_bool(bits, aligned(n5)) {
                                            Err(e) => Err(e),
                                            Ok((old, n6)) => Ok(
                                                (
                                                    GameKeyView {
                                                        side_story4_begin_read_key: Some(side),
                                                        old_score_cleared_v390: Some(old),
                                                        ..most
                                                    },
                                                    n6,
                                                ),
                                            ),
                                        },
                                    }
                                } else {
                                    Ok((most, n4))
                                }
                            },
                        },
                    },
                }
            },
        }
    }

    open spec fn spec_build(v: GameKeyView, pre: Seq<bool>) -> Seq<bool> {
        let b1 = pre + le_bits(v.version as nat, 8);
        let b2 = KeyList::spec_build(v.key_list, b1);
        let b3 = b2 + v.lanota_read_keys;
        let b4 = pad8(b3) + v.camellia_read_key;
        let b5 = match v.side_story4_begin_read_key {
            Some(side) => b4.push(side),
            None => b4,
        };
        match v.old_score_cleared_v390 {
            Some(old) => pad8(b5).push(old),
            None => b5,
        }
    }

    open spec fn representable(v: GameKeyView) -> bool {
        KeyList::representable(v.key_list)
    }

    open spec fn valid(v: GameKeyView) -> bool {
        &&& Self::representable(v)
        &&& v.version >= MIN_KEY_VERSION
        &&& v.side_story4_begin_read_key is Some <==> v.version >= 3
        &&& v.old_score_cleared_v390 is Some <==> v.version >= 3
        &&& v.lanota_read_keys.len() == 6
        &&& v.camellia_read_key.len() == 8
    }

    open spec fn normal(v: GameKeyView) -> GameKeyView {
        GameKeyView { key_list: KeyList::normal(v.key_list), ..v }
    }

    #[verifier::rlimit(50)]
    fn parse<'a>(cur: BitCursor<'a>) -> (r: Result<(GameKey, BitCursor<'a>), CodecError>) {
        let mut s = GameKey::default();
        let (version, cur1) = match cur.read_u8() {
            Ok(x) => x,
            Err(e) => {
                return Err(e);
            },
        };
        s.version = version;
        if s.check_version().is_some() {
            return Err(CodecError::UnsupportedVersion { version });
        }
        let (key_list, cur2) = match KeyList::parse(cur1) {
            Ok(x) => x,
            Err(e) => {
                return Err(e);
            },
        };
        s.key_list = key_list;
        let (lanota, cur3) = match cur2.read_flags::<6>() {
            Ok(x) => x,
            Err(e) => {
                return Err(e);
            },
        };
        s.lanota_read_keys = lanota;
        let (camellia, cur4) = match cur3.align().read_flags::<8>() {
            Ok(x) => x,
            Err(e) => {
                return Err(e);
            },
        };
        s.camellia_read_key = camellia;
        let mut at = cur4;
        if s.is_version_at_least_3() {
            let (side, next) = match at.read_bool() {
                Ok(x) => x,
                Err(e) => {
                    return Err(e);
                },
            };
            s.side_story4_begin_read_key = Some(side);
            at = next;
        }
        if s.is_version_at_least_3() {
            let (old, next) = match at.align().read_bool() {
                Ok(x) => x,
                Err(e) => {
                    return Err(e);
                },
            };
            s.old_score_cleared_v390 = Some(old);
            at = next;
        }
        Ok((s, at))
    }

    #[verifier::rlimit(50)]
    fn build(&self, buf: &mut BitBuffer) -> (r: Result<(), CodecError>) {
        buf.write_u8(self.version);
        match self.key_list.build(buf) {
            Ok(()) => {},
            Err(e) => {
                return Err(e);
            },
        }
        buf.write_flags(&self.lanota_read_keys);
        buf.align();
        buf.write_flags(&self.camellia_read_key);
        match self.side_story4_begin_read_key {
            Some(side) => {
                buf.write_bool(side);
            },
            None => {},
        }
        match self.old_score_cleared_v390 {
            Some(old) => {
                buf.align();
                buf.write_bool(old);
            },
            None => {},
        }
        Ok(())
    }

    #[verifier::rlimit(50)]
    proof fn lemma_parse_build(v: GameKeyView, pre: Seq<bool>, bits: Seq<bool>) {
        let b1 = pre + le_bits(v.version as nat, 8);
        let b2 = KeyList::spec_build(v.key_list, b1);
        let b3 = b2 + v.lanota_read_keys;
        let b4 = pad8(b3) + v.camellia_read_key;
        if v.version >= 3 {
            let b5 = b4.push(v.side_story4_begin_read_key->0);
            lemma_take_bool_written(bits, pad8(b5), v.old_score_cleared_v390->0);
            lemma_begins_padded(bits, b5);
            lemma_take_bool_written(bits, b4, v.side_story4_begin_read_key->0);
        }
        lemma_take_flags_written(bits, pad8(b3), v.camellia_read_key);
        lemma_begins_padded(bits, b3);
        lemma_take_flags_written(bits, b2, v.lanota_read_keys);
        KeyList::lemma_parse_build(v.key_list, b1, bits);
        lemma_take_u8_written(bits, pre, v.version);
    }

    #[verifier::rlimit(50)]
    proof fn lemma_parsed_valid(bits: Seq<bool>, pos: nat) {
        assert forall|p: nat| #![trigger KeyList::spec_parse(bits, p)] reads_valid::<KeyList>(bits, p) by {
            KeyList::lemma_parsed_valid(bits, p);
        }
    }
}

} // verus!

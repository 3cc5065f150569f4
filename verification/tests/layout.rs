use bitvec::order::Lsb0;
use bitvec::vec::BitVec;
use phi_save_codec::field::{decode, encode};
use phi_save_codec::game_key::field::{GameKey, Key, KeyList, KeyType};
use phi_save_codec::game_key::serde::SerializableGameKey;
use phi_save_codec::game_progress::field::{Chapter8Base, GameProgress, Money, ProgressBase};
use phi_save_codec::game_record::field::{GameRecord, LevelRecord, SongEntry};
use phi_save_codec::game_record::serde::SerializableGameRecord;
use phi_save_codec::phi_base::{PhiString, VarInt};
use phi_save_codec::settings::field::Settings;
use phi_save_codec::summary::field::Summary;
use phi_save_codec::user::field::User;
use shua_struct::BinaryField;

/// A bit vector that is filled field by field, each field taking its own bits and then,
/// where it is marked, as many more as bring its length to a multiple of eight.
struct Fields {
    bits: BitVec<u8, Lsb0>,
}

impl Fields {
    fn new() -> Self {
        Fields { bits: BitVec::new() }
    }

    fn put<T: BinaryField<Lsb0, (), Error = E>, E: std::fmt::Debug>(&mut self, value: &T, align: usize) {
        let len = value.bit_len(&());
        let start = self.bits.len();
        let padded = if align == 0 { len } else { (len + align - 1) / align * align };
        self.bits.resize(start + padded, false);
        value.build(&mut self.bits[start..start + len], &()).unwrap();
    }

    fn put_var_int(&mut self, value: u16) {
        if value > 127 {
            self.put(&(((value & 0x7f) as u8) | 0x80), 0);
            self.put(&((value >> 7) as u8), 0);
        } else {
            self.put(&(value as u8), 0);
        }
    }

    fn put_string(&mut self, s: &str) {
        self.put_var_int(s.len() as u16);
        for byte in s.as_bytes() {
            self.put(byte, 0);
        }
    }

    fn into_bytes(self) -> Vec<u8> {
        self.bits.into_vec()
    }
}

struct Lcg(u64);

impl Lcg {
    fn next(&mut self) -> u32 {
        self.0 = self.0.wrapping_mul(6364136223846793005).wrapping_add(1442695040888963407);
        (self.0 >> 33) as u32
    }

    fn below(&mut self, n: u32) -> u32 {
        self.next() % n
    }

    fn flag(&mut self) -> bool {
        self.next() & 1 == 1
    }

    fn flags<const N: usize>(&mut self) -> [bool; N] {
        let mut out = [false; N];
        for f in out.iter_mut() {
            *f = self.flag();
        }
        out
    }

    fn var_int(&mut self) -> VarInt {
        match self.below(3) {
            0 => VarInt(self.below(128) as u16),
            1 => VarInt(128 + self.below(1000) as u16),
            _ => VarInt(self.below(32768) as u16),
        }
    }

    fn string(&mut self) -> PhiString {
        let alphabet = ["a", "B", "0", "-", "é", "音", "😀", " "];
        let len = if self.below(8) == 0 { 100 + self.below(100) } else { self.below(6) };
        let mut s = String::new();
        for _ in 0..len {
            s.push_str(alphabet[self.below(alphabet.len() as u32) as usize]);
        }
        PhiString(s)
    }
}

#[test]
fn user_layout_is_that_of_fields_padded_behind() {
    let mut rng = Lcg(1);
    for _ in 0..50 {
        let user = User {
            version: rng.below(256) as u8,
            show_player_id: rng.flag(),
            self_intro: rng.string(),
            avatar: rng.string(),
            background: rng.string(),
        };
        let mut fields = Fields::new();
        fields.put(&user.version, 0);
        fields.put(&user.show_player_id, 8);
        fields.put_string(&user.self_intro.0);
        fields.put_string(&user.avatar.0);
        fields.put_string(&user.background.0);
        let bytes = encode(&user).unwrap();
        assert_eq!(bytes, fields.into_bytes());
        assert_eq!(decode::<User>(&bytes).unwrap(), user);
    }
}

fn random_progress(rng: &mut Lcg) -> GameProgress {
    let version = 3 + rng.below(3) as u8;
    GameProgress {
        version,
        base: ProgressBase {
            is_first_run: rng.flag(),
            legacy_chapter_finished: rng.flag(),
            already_show_collection_tip: rng.flag(),
            already_show_auto_unlock_in_tip: rng.flag(),
        },
        completed: rng.string(),
        song_update_info: rng.var_int(),
        challenge_mode_rank: rng.below(65536) as u16,
        money: Money {
            kib: rng.var_int(),
            mib: rng.var_int(),
            gib: rng.var_int(),
            tib: rng.var_int(),
            pib: rng.var_int(),
        },
        unlock_flag_of_spasmodic: rng.flags(),
        unlock_flag_of_igallta: rng.flags(),
        unlock_flag_of_rrharil: rng.flags(),
        flag_of_song_record_key: rng.flags(),
        random_version_unlocked: rng.flags(),
        chapter8_base: Chapter8Base {
            unlock_begin: rng.flag(),
            unlock_second_phase: rng.flag(),
            passed: rng.flag(),
        },
        chapter8_song_unlocked: rng.flags(),
        flag_of_song_record_key_takumi: if version >= 4 { Some(rng.flags()) } else { None },
    }
}

#[test]
fn progress_layout_is_that_of_fields_padded_behind() {
    let mut rng = Lcg(2);
    for _ in 0..50 {
        let p = random_progress(&mut rng);
        let mut fields = Fields::new();
        fields.put(&p.version, 0);
        fields.put(
            &[
                p.base.is_first_run,
                p.base.legacy_chapter_finished,
                p.base.already_show_collection_tip,
                p.base.already_show_auto_unlock_in_tip,
            ],
            8,
        );
        fields.put_string(&p.completed.0);
        fields.put_var_int(p.song_update_info.0);
        fields.put(&p.challenge_mode_rank, 0);
        for tier in [p.money.kib, p.money.mib, p.money.gib, p.money.tib, p.money.pib] {
            fields.put_var_int(tier.0);
        }
        fields.put(&p.unlock_flag_of_spasmodic, 8);
        fields.put(&p.unlock_flag_of_igallta, 8);
        fields.put(&p.unlock_flag_of_rrharil, 8);
        fields.put(&p.flag_of_song_record_key, 0);
        fields.put(&p.random_version_unlocked, 8);
        fields.put(
            &[p.chapter8_base.unlock_begin, p.chapter8_base.unlock_second_phase, p.chapter8_base.passed],
            8,
        );
        fields.put(&p.chapter8_song_unlocked, 8);
        if let Some(takumi) = &p.flag_of_song_record_key_takumi {
            fields.put(takumi, 8);
        }
        let bytes = encode(&p).unwrap();
        assert_eq!(bytes, fields.into_bytes());
        assert_eq!(decode::<GameProgress>(&bytes).unwrap(), p);
    }
}

fn random_key(rng: &mut Lcg, name: String) -> Key {
    let type_ = KeyType {
        exist_read_collection_piece_num: rng.flag(),
        exist_unlcok_single: rng.flag(),
        exist_unlock_collection_piece_num: rng.flag(),
        exist_unlock_illustration: rng.flag(),
        exist_unlock_avatar: rng.flag(),
    };
    let mut flag = Vec::new();
    if type_.exist_read_collection_piece_num {
        flag.push(rng.below(256) as u8);
    }
    if type_.exist_unlcok_single {
        flag.push(rng.below(2) as u8);
    }
    if type_.exist_unlock_collection_piece_num {
        flag.push(rng.below(256) as u8);
    }
    if type_.exist_unlock_illustration {
        flag.push(rng.below(2) as u8);
    }
    if type_.exist_unlock_avatar {
        flag.push(rng.below(2) as u8);
    }
    Key { key: PhiString(name), length: flag.len() as u8 + 1, type_, flag }
}

fn random_game_key(rng: &mut Lcg) -> GameKey {
    let version = 2 + rng.below(3) as u8;
    let count = rng.below(200) as usize;
    // Names that differ and stand in the order of their bytes.
    let key_list: Vec<Key> = (0..count)
        .map(|i| {
            let name = format!("key{:04}{}", i, rng.string().0);
            random_key(rng, name)
        })
        .collect();
    GameKey {
        version,
        key_list: KeyList { key_sum: VarInt(count as u16), key_list },
        lanota_read_keys: rng.flags(),
        camellia_read_key: rng.flags(),
        side_story4_begin_read_key: if version >= 3 { Some(rng.flag()) } else { None },
        old_score_cleared_v390: if version >= 3 { Some(rng.flag()) } else { None },
    }
}

#[test]
fn key_record_layout_is_that_of_fields_padded_behind() {
    let mut rng = Lcg(3);
    for _ in 0..20 {
        let k = random_game_key(&mut rng);
        let mut fields = Fields::new();
        fields.put(&k.version, 0);
        fields.put_var_int(k.key_list.key_list.len() as u16);
        for key in &k.key_list.key_list {
            fields.put_string(&key.key.0);
            fields.put(&key.length, 0);
            fields.put(
                &[
                    key.type_.exist_read_collection_piece_num,
                    key.type_.exist_unlcok_single,
                    key.type_.exist_unlock_collection_piece_num,
                    key.type_.exist_unlock_illustration,
                    key.type_.exist_unlock_avatar,
                ],
                8,
            );
            for byte in &key.flag {
                fields.put(byte, 0);
            }
        }
        fields.put(&k.lanota_read_keys, 8);
        fields.put(&k.camellia_read_key, 0);
        if let Some(side) = k.side_story4_begin_read_key {
            fields.put(&side, 8);
        }
        if let Some(old) = k.old_score_cleared_v390 {
            fields.put(&old, 8);
        }
        let bytes = encode(&k).unwrap();
        assert_eq!(bytes, fields.into_bytes());
        assert_eq!(decode::<GameKey>(&bytes).unwrap(), k);
    }
}

#[test]
fn key_record_survives_the_canonical_form_and_the_wire() {
    let mut rng = Lcg(4);
    for _ in 0..20 {
        let k = random_game_key(&mut rng);
        let bytes = encode(&k).unwrap();
        let canonical = SerializableGameKey::from(decode::<GameKey>(&bytes).unwrap());
        let raw = GameKey::from(canonical);
        assert_eq!(raw, k);
        assert_eq!(encode(&raw).unwrap(), bytes);
    }
}

fn random_game_record(rng: &mut Lcg) -> GameRecord {
    let count = rng.below(150) as usize;
    let song_list: Vec<SongEntry> = (0..count)
        .map(|i| {
            let unlock: [bool; 5] = rng.flags();
            let mut fc: [bool; 5] = rng.flags();
            for d in 0..5 {
                fc[d] = fc[d] && unlock[d];
            }
            let levels: Vec<LevelRecord> = unlock
                .iter()
                .filter(|u| **u)
                .map(|_| LevelRecord { score: rng.next(), acc: rng.next() })
                .collect();
            SongEntry {
                name: PhiString(format!("song{:04}{}", i, rng.string().0)),
                length: VarInt((levels.len() * 8 + 2) as u16),
                unlock,
                fc,
                levels,
            }
        })
        .collect();
    GameRecord { version: rng.below(256) as u8, song_sum: VarInt(count as u16), song_list }
}

#[test]
fn score_record_layout_is_that_of_fields_padded_behind() {
    let mut rng = Lcg(5);
    for _ in 0..20 {
        let r = random_game_record(&mut rng);
        let mut fields = Fields::new();
        fields.put(&r.version, 0);
        fields.put_var_int(r.song_list.len() as u16);
        for song in &r.song_list {
            fields.put_string(&song.name.0);
            fields.put_var_int(song.length.0);
            fields.put(&song.unlock, 8);
            fields.put(&song.fc, 8);
            for level in &song.levels {
                fields.put(&level.score, 0);
                fields.put(&f32::from_bits(level.acc).to_bits(), 0);
            }
        }
        let bytes = encode(&r).unwrap();
        assert_eq!(bytes, fields.into_bytes());
        assert_eq!(decode::<GameRecord>(&bytes).unwrap(), r);
    }
}

#[test]
fn score_record_survives_the_canonical_form_and_the_wire() {
    let mut rng = Lcg(6);
    for _ in 0..20 {
        let r = random_game_record(&mut rng);
        let bytes = encode(&r).unwrap();
        let canonical = SerializableGameRecord::from(decode::<GameRecord>(&bytes).unwrap());
        let raw = GameRecord::from(canonical);
        assert_eq!(raw, r);
        assert_eq!(encode(&raw).unwrap(), bytes);
    }
}

fn random_bytes(rng: &mut Lcg) -> Vec<u8> {
    let len = rng.below(64) as usize;
    let mut bytes: Vec<u8> = (0..len).map(|_| rng.below(256) as u8).collect();
    // Small counts and supported versions now and then, so that some inputs are records.
    for b in bytes.iter_mut() {
        if rng.below(3) == 0 {
            *b = rng.below(6) as u8;
        }
    }
    bytes
}

#[test]
fn what_is_decoded_is_encoded_and_decoded_again() {
    let mut rng = Lcg(7);
    let mut decoded = 0;
    for _ in 0..3000 {
        let bytes = random_bytes(&mut rng);
        if let Ok(v) = decode::<User>(&bytes) {
            assert_eq!(decode::<User>(&encode(&v).unwrap()).unwrap(), v);
            decoded += 1;
        }
        if let Ok(v) = decode::<Summary>(&bytes) {
            assert_eq!(decode::<Summary>(&encode(&v).unwrap()).unwrap(), v);
            decoded += 1;
        }
        if let Ok(v) = decode::<Settings>(&bytes) {
            assert_eq!(decode::<Settings>(&encode(&v).unwrap()).unwrap(), v);
            decoded += 1;
        }
        if let Ok(v) = decode::<GameProgress>(&bytes) {
            assert_eq!(decode::<GameProgress>(&encode(&v).unwrap()).unwrap(), v);
            decoded += 1;
        }
        if let Ok(v) = decode::<GameRecord>(&bytes) {
            assert_eq!(decode::<GameRecord>(&encode(&v).unwrap()).unwrap(), v);
            decoded += 1;
        }
        if let Ok(v) = decode::<GameKey>(&bytes) {
            // The length byte of a key is written from its flags: a key that was read with
            // a length of zero comes back with one.
            let again = decode::<GameKey>(&encode(&v).unwrap()).unwrap();
            assert_eq!(again.version, v.version);
            assert_eq!(again.key_list.key_sum, v.key_list.key_sum);
            assert_eq!(again.key_list.key_list.len(), v.key_list.key_list.len());
            for (a, b) in again.key_list.key_list.iter().zip(v.key_list.key_list.iter()) {
                assert_eq!((&a.key, &a.type_, &a.flag), (&b.key, &b.type_, &b.flag));
                assert_eq!(a.length as usize, b.flag.len() + 1);
            }
            assert_eq!(again.lanota_read_keys, v.lanota_read_keys);
            assert_eq!(again.camellia_read_key, v.camellia_read_key);
            assert_eq!(again.side_story4_begin_read_key, v.side_story4_begin_read_key);
            assert_eq!(again.old_score_cleared_v390, v.old_score_cleared_v390);
            decoded += 1;
        }
    }
    assert!(decoded > 100, "only {} inputs were records", decoded);
}

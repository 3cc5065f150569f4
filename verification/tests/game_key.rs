use phi_save_codec::error::{CodecError, ErrorKind};
use phi_save_codec::field::{decode, encode};
use phi_save_codec::game_key::field::{GameKey, Key, KeyList, KeyType};
use phi_save_codec::game_key::serde::{SerializableGameKey, SerializableKey};
use phi_save_codec::phi_base::VarInt;

fn no_capability() -> KeyType {
    KeyType::default()
}

fn nothing() -> SerializableKey {
    SerializableKey::default()
}

#[test]
fn default_keys_have_nothing() {
    let t = KeyType::default();
    assert!(!t.exist_read_collection_piece_num && !t.exist_unlcok_single);
    assert!(!t.exist_unlock_collection_piece_num && !t.exist_unlock_illustration);
    assert!(!t.exist_unlock_avatar);
    assert_eq!(SerializableKey::default().unlock_avatar, None);
    assert_eq!(SerializableKey::default().read_collection_piece_num, None);
    let key = Key::default();
    assert_eq!((key.key.0.as_str(), key.length, key.flag.len()), ("", 0, 0));
    let record = GameKey::default();
    assert_eq!(record.version, 0);
    assert!(record.key_list.key_list.is_empty());
    assert_eq!(record.side_story4_begin_read_key, None);
    assert_eq!(KeyList::default().key_sum, VarInt(0));
}

fn sample(version: u8) -> GameKey {
    GameKey {
        version,
        key_list: KeyList {
            key_sum: VarInt(2),
            key_list: vec![
                Key {
                    key: "ab".into(),
                    length: 3,
                    type_: KeyType {
                        exist_read_collection_piece_num: true,
                        exist_unlcok_single: true,
                        ..no_capability()
                    },
                    flag: vec![7, 1],
                },
                Key {
                    key: "c".into(),
                    length: 2,
                    type_: KeyType { exist_unlock_avatar: true, ..no_capability() },
                    flag: vec![1],
                },
            ],
        },
        lanota_read_keys: [true, false, false, false, false, true],
        camellia_read_key: [false, true, false, false, false, false, false, false],
        side_story4_begin_read_key: if version >= 3 { Some(true) } else { None },
        old_score_cleared_v390: if version >= 3 { Some(false) } else { None },
    }
}

fn bytes_of_version_2() -> Vec<u8> {
    vec![2, 2, 2, b'a', b'b', 3, 0x03, 7, 1, 1, b'c', 2, 0x10, 1, 0x21, 0x02]
}

#[test]
fn key_record_has_the_expected_bytes() {
    assert_eq!(encode(&sample(2)).unwrap(), bytes_of_version_2());
    let mut version_3 = bytes_of_version_2();
    version_3[0] = 3;
    version_3.extend_from_slice(&[0x01, 0x00]);
    assert_eq!(encode(&sample(3)).unwrap(), version_3);
    assert_eq!(decode::<GameKey>(&version_3).unwrap(), sample(3));
    assert_eq!(decode::<GameKey>(&bytes_of_version_2()).unwrap(), sample(2));
}

#[test]
fn key_record_versions() {
    let mut bytes = bytes_of_version_2();
    bytes[0] = 1;
    let err = decode::<GameKey>(&bytes).unwrap_err();
    assert_eq!(err, CodecError::UnsupportedVersion { version: 1 });
    assert_eq!(err.kind(), ErrorKind::Validation);
    assert_eq!(decode::<GameKey>(&[1]).unwrap_err().kind(), ErrorKind::Validation);
    bytes[0] = 3;
    assert_eq!(
        decode::<GameKey>(&bytes).unwrap_err(),
        CodecError::InsufficientBits { needed: 1, available: 0 }
    );
    bytes.push(0x01);
    assert_eq!(decode::<GameKey>(&bytes).unwrap_err().kind(), ErrorKind::Structure);
    bytes.push(0x01);
    let key = decode::<GameKey>(&bytes).unwrap();
    assert_eq!(key.side_story4_begin_read_key, Some(true));
    assert_eq!(key.old_score_cleared_v390, Some(true));

    let mut key = sample(3);
    assert!(key.is_version_at_least_3());
    assert_eq!(key.check_version(), None);
    key.version = 2;
    assert!(!key.is_version_at_least_3());
    assert_eq!(key.check_version(), None);
    key.version = 1;
    assert_eq!(key.check_version(), Some("Not supported".to_string()));
}

#[test]
fn key_counts_are_written_from_what_is_there() {
    let mut key = sample(2);
    key.key_list.key_sum = VarInt(77);
    key.key_list.key_list[0].length = 200;
    key.key_list.key_list[1].length = 0;
    let bytes = encode(&key).unwrap();
    assert_eq!(bytes, bytes_of_version_2());
    let back = decode::<GameKey>(&bytes).unwrap();
    assert_eq!(back.key_list.key_sum, VarInt(2));
    assert_eq!(back.key_list.key_list[0].length, 3);
    assert_eq!(back.key_list.key_list[1].length, 2);
    assert_eq!(back.key_list.key_list[0].get_flag_len(), 2);
}

#[test]
fn key_with_a_length_of_zero_has_no_flags() {
    let bytes = [2, 1, 1, b'k', 0, 0x1f, 0x00, 0x00];
    let key = decode::<GameKey>(&bytes).unwrap();
    let first = &key.key_list.key_list[0];
    assert_eq!(first.length, 0);
    assert_eq!(first.get_flag_len(), 0);
    assert!(first.flag.is_empty());
    assert_eq!(first.type_.exist_unlock_avatar, true);
}

#[test]
fn key_with_too_many_flags_is_refused() {
    let mut key = sample(2);
    key.key_list.key_list[0].flag = vec![0; 254];
    assert!(encode(&key).is_ok());
    key.key_list.key_list[0].flag = vec![0; 255];
    assert_eq!(encode(&key).unwrap_err(), CodecError::ValueOutOfRange);
}

#[test]
fn key_list_cut_short_is_a_shortage() {
    let bytes = bytes_of_version_2();
    assert_eq!(
        decode::<GameKey>(&bytes[..8]).unwrap_err(),
        CodecError::InsufficientBits { needed: 8, available: 0 }
    );
    assert_eq!(
        decode::<GameKey>(&bytes[..14]).unwrap_err(),
        CodecError::InsufficientBits { needed: 1, available: 0 }
    );
}

#[test]
fn avatar_key_in_canonical_form_and_back() {
    let key = Key {
        key: "k".into(),
        length: 2,
        type_: KeyType { exist_unlock_avatar: true, ..no_capability() },
        flag: vec![0x01],
    };
    let canonical = SerializableKey::from(key);
    assert_eq!(canonical, SerializableKey { unlock_avatar: Some(true), ..nothing() });

    let back = Key::from(("k".to_string(), canonical));
    assert_eq!(back.type_, KeyType { exist_unlock_avatar: true, ..no_capability() });
    assert_eq!(back.flag, vec![0x01]);
    assert_eq!(back.length, 2);
    assert_eq!(back.key.0, "k");
}

#[test]
fn key_values_take_the_flags_in_the_order_of_the_bits() {
    let key = Key {
        key: "k".into(),
        length: 4,
        type_: KeyType {
            exist_read_collection_piece_num: true,
            exist_unlock_collection_piece_num: true,
            exist_unlock_illustration: true,
            ..no_capability()
        },
        flag: vec![9, 4, 0],
    };
    let canonical = SerializableKey::from(key);
    assert_eq!(
        canonical,
        SerializableKey {
            read_collection_piece_num: Some(9),
            unlock_collection_piece_num: Some(4),
            unlock_illustration: Some(false),
            ..nothing()
        }
    );
    let back = Key::from(("k".to_string(), canonical));
    assert_eq!(back.flag, vec![9, 4, 0]);
    assert_eq!(back.length, 4);
}

#[test]
fn key_values_without_a_flag_are_absent() {
    let key = Key {
        key: "k".into(),
        length: 2,
        type_: KeyType {
            exist_unlcok_single: true,
            exist_unlock_illustration: true,
            exist_unlock_avatar: true,
            ..no_capability()
        },
        flag: vec![2],
    };
    // One flag for three capabilities: the first takes it, and two is not true.
    let canonical = SerializableKey::from(key);
    assert_eq!(canonical, SerializableKey { unlock_single: Some(false), ..nothing() });
}

#[test]
fn all_key_values_and_back() {
    let canonical = SerializableKey {
        read_collection_piece_num: Some(200),
        unlock_single: Some(true),
        unlock_collection_piece_num: Some(0),
        unlock_illustration: Some(false),
        unlock_avatar: Some(true),
    };
    let key = Key::from(("all".to_string(), canonical));
    assert_eq!(key.flag, vec![200, 1, 0, 0, 1]);
    assert_eq!(key.length, 6);
    assert_eq!(SerializableKey::from(key), canonical);
    let none = Key::from(("none".to_string(), nothing()));
    assert_eq!(none.flag, Vec::<u8>::new());
    assert_eq!(none.length, 1);
    assert_eq!(none.type_, no_capability());
}

#[test]
fn key_record_in_canonical_form_and_back() {
    let canonical = SerializableGameKey::from(sample(3));
    assert_eq!(canonical.version, 3);
    assert_eq!(canonical.keys.len(), 2);
    assert_eq!(
        canonical.keys.get("ab"),
        Some(&SerializableKey {
            read_collection_piece_num: Some(7),
            unlock_single: Some(true),
            ..nothing()
        })
    );
    assert_eq!(
        canonical.keys.get("c"),
        Some(&SerializableKey { unlock_avatar: Some(true), ..nothing() })
    );
    assert_eq!(canonical.keys.get("d"), None);
    assert_eq!(canonical.side_story4_begin_read_key, Some(true));
    assert_eq!(GameKey::from(canonical), sample(3));
}

#[test]
fn keys_in_canonical_form_stand_in_the_order_of_their_names() {
    let mut key = sample(2);
    key.key_list.key_list.reverse();
    key.key_list.key_list.push(Key {
        key: "ab".into(),
        length: 1,
        type_: no_capability(),
        flag: vec![],
    });
    let canonical = SerializableGameKey::from(key);
    // The later key of the name "ab" stays, and "ab" stands before "c".
    assert_eq!(canonical.keys.len(), 2);
    assert_eq!(canonical.keys.name(0), "ab");
    assert_eq!(canonical.keys.name(1), "c");
    assert_eq!(canonical.keys.value(0), &nothing());
    let raw = GameKey::from(canonical);
    assert_eq!(raw.key_list.key_sum, VarInt(2));
    assert_eq!(raw.key_list.key_list[0].key.0, "ab");
    assert_eq!(raw.key_list.key_list[0].length, 1);
    assert_eq!(raw.key_list.key_list[1].key.0, "c");
    assert_eq!(raw.key_list.key_list[1].flag, vec![1]);
}

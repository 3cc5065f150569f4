use phi_save_codec::error::{CodecError, ErrorKind};
use phi_save_codec::field::{decode, encode};
use phi_save_codec::game_progress::field::{Chapter8Base, GameProgress, Money, ProgressBase};
use phi_save_codec::game_progress::serde::SerializableGameProgress;
use phi_save_codec::phi_base::VarInt;

fn sample(version: u8) -> GameProgress {
    GameProgress {
        version,
        base: ProgressBase {
            is_first_run: true,
            legacy_chapter_finished: false,
            already_show_collection_tip: true,
            already_show_auto_unlock_in_tip: false,
        },
        completed: "3.0".into(),
        song_update_info: VarInt(2),
        challenge_mode_rank: 0x0345,
        money: Money {
            kib: VarInt(1),
            mib: VarInt(200),
            gib: VarInt(0),
            tib: VarInt(0),
            pib: VarInt(0),
        },
        unlock_flag_of_spasmodic: [true, false, false, true],
        unlock_flag_of_igallta: [false, true, false, false],
        unlock_flag_of_rrharil: [true, true, true, true],
        flag_of_song_record_key: [true, false, false, false, false, false, false, true],
        random_version_unlocked: [true, true, false, false, false, true],
        chapter8_base: Chapter8Base { unlock_begin: true, unlock_second_phase: false, passed: true },
        chapter8_song_unlocked: [false, false, true, false, false, false],
        flag_of_song_record_key_takumi: if version >= 4 { Some([true, false, true]) } else { None },
    }
}

fn bytes_of_version_3() -> Vec<u8> {
    vec![
        3, 0x05, 3, b'3', b'.', b'0', 2, 0x45, 0x03, 1, 0xc8, 0x01, 0, 0, 0, 0x09, 0x02, 0x0f, 0x81,
        0x23, 0x05, 0x04,
    ]
}

#[test]
fn progress_has_the_expected_bytes() {
    assert_eq!(encode(&sample(3)).unwrap(), bytes_of_version_3());
    let mut with_takumi = bytes_of_version_3();
    with_takumi[0] = 4;
    with_takumi.push(0x05);
    assert_eq!(encode(&sample(4)).unwrap(), with_takumi);
}

#[test]
fn progress_of_version_3_has_no_takumi_flags() {
    let progress = decode::<GameProgress>(&bytes_of_version_3()).unwrap();
    assert_eq!(progress.flag_of_song_record_key_takumi, None);
    assert_eq!(progress, sample(3));
    // Bytes that follow are not taken for the absent field.
    let mut longer = bytes_of_version_3();
    longer.push(0x07);
    assert_eq!(decode::<GameProgress>(&longer).unwrap().flag_of_song_record_key_takumi, None);
}

#[test]
fn progress_of_version_4_has_takumi_flags() {
    let mut bytes = bytes_of_version_3();
    bytes[0] = 4;
    bytes.push(0x05);
    let progress = decode::<GameProgress>(&bytes).unwrap();
    assert_eq!(progress.flag_of_song_record_key_takumi, Some([true, false, true]));
    assert_eq!(progress, sample(4));
    let mut later = bytes.clone();
    later[0] = 9;
    assert!(decode::<GameProgress>(&later).unwrap().flag_of_song_record_key_takumi.is_some());
}

#[test]
fn progress_of_version_4_without_takumi_flags_is_a_shortage() {
    let mut bytes = bytes_of_version_3();
    bytes[0] = 4;
    let err = decode::<GameProgress>(&bytes).unwrap_err();
    assert_eq!(err, CodecError::InsufficientBits { needed: 1, available: 0 });
}

#[test]
fn progress_of_version_2_is_rejected_for_its_version() {
    let mut bytes = bytes_of_version_3();
    bytes[0] = 2;
    let err = decode::<GameProgress>(&bytes).unwrap_err();
    assert_eq!(err, CodecError::UnsupportedVersion { version: 2 });
    assert_eq!(err.kind(), ErrorKind::Validation);
    assert_eq!(err.reason(), Some("Not supported".to_string()));
    // The version is judged before anything else is read.
    assert_eq!(
        decode::<GameProgress>(&[0]).unwrap_err(),
        CodecError::UnsupportedVersion { version: 0 }
    );
    assert_eq!(
        decode::<GameProgress>(&[2, 0xff]).unwrap_err().kind(),
        ErrorKind::Validation
    );
    assert_eq!(decode::<GameProgress>(&[3]).unwrap_err().kind(), ErrorKind::Structure);
}

#[test]
fn progress_version_checks() {
    let mut progress = sample(4);
    assert!(progress.is_version_at_least_4());
    assert!(progress.is_version_at_least_3());
    assert!(progress.is_version_at_least_2());
    assert_eq!(progress.check_version(), None);
    progress.version = 3;
    assert!(!progress.is_version_at_least_4());
    assert!(progress.is_version_at_least_3());
    progress.version = 2;
    assert!(!progress.is_version_at_least_3());
    assert!(progress.is_version_at_least_2());
    assert_eq!(progress.check_version(), Some("Not supported".to_string()));
    progress.version = 1;
    assert!(!progress.is_version_at_least_2());
}

#[test]
fn progress_with_money_out_of_range_is_refused() {
    let mut progress = sample(4);
    progress.money.pib = VarInt(32768);
    assert_eq!(encode(&progress).unwrap_err(), CodecError::ValueOutOfRange);
}

#[test]
fn progress_in_canonical_form_and_back() {
    let canonical = SerializableGameProgress::from(sample(4));
    assert_eq!(canonical.version, 4);
    assert_eq!(canonical.completed, "3.0");
    assert_eq!(canonical.song_update_info, 2);
    assert_eq!(canonical.money.mib, 200);
    assert_eq!(canonical.flag_of_song_record_key_takumi, Some([true, false, true]));
    assert_eq!(GameProgress::from(canonical), sample(4));
}

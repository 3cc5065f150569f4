use phi_save_codec::error::{CodecError, ErrorKind};
use phi_save_codec::field::{decode, encode};
use phi_save_codec::phi_base::{PhiString, VarInt};
use phi_save_codec::settings::field::{Settings, SettingsBase};
use phi_save_codec::summary::field::{Level, MultiLevel, Summary};
use phi_save_codec::user::field::User;

fn sample_user() -> User {
    User {
        version: 1,
        show_player_id: true,
        self_intro: "hi".into(),
        avatar: "a".into(),
        background: "".into(),
    }
}

fn sample_summary() -> Summary {
    Summary {
        save_version: 6,
        challenge_mode_rank: 0x0123,
        rks: 15.5f32.to_bits(),
        game_version: VarInt(130),
        avatar: "av".into(),
        level: MultiLevel {
            ez: Level { clear: 1, fc: 2, phi: 3 },
            hd: Level { clear: 4, fc: 5, phi: 6 },
            in_: Level { clear: 7, fc: 8, phi: 9 },
            at: Level { clear: 10, fc: 11, phi: 0x0c0d },
        },
    }
}

fn sample_settings() -> Settings {
    Settings {
        version: 1,
        base: SettingsBase {
            chord_support: true,
            fc_ap_indicator: false,
            enable_hit_sound: true,
            low_resolution_mode: true,
        },
        device_name: "dev".into(),
        bright: 1.0f32.to_bits(),
        music_volume: 0.5f32.to_bits(),
        effect_volume: 0.25f32.to_bits(),
        hit_sound_volume: 0.0f32.to_bits(),
        sound_offset: (-0.125f32).to_bits(),
        note_scale: 1.5f32.to_bits(),
    }
}

#[test]
fn user_has_the_expected_bytes() {
    let bytes = encode(&sample_user()).unwrap();
    assert_eq!(bytes, vec![1, 0x01, 2, b'h', b'i', 1, b'a', 0]);
    assert_eq!(decode::<User>(&bytes).unwrap(), sample_user());
}

#[test]
fn user_ignores_the_padding_and_what_follows() {
    // The seven bits behind the flag are set, and two bytes follow the record.
    let bytes = [9, 0xfe, 0, 1, b'z', 0, 0xaa, 0xbb];
    let user = decode::<User>(&bytes).unwrap();
    assert_eq!(user.version, 9);
    assert!(!user.show_player_id);
    assert_eq!(user.self_intro.0, "");
    assert_eq!(user.avatar.0, "z");
    assert_eq!(user.background.0, "");
}

#[test]
fn user_cut_short_is_a_shortage() {
    let bytes = encode(&sample_user()).unwrap();
    for cut in 0..bytes.len() {
        let err = decode::<User>(&bytes[..cut]).unwrap_err();
        assert_eq!(err.kind(), ErrorKind::Structure, "cut at {}", cut);
    }
    assert_eq!(
        decode::<User>(&[]).unwrap_err(),
        CodecError::InsufficientBits { needed: 8, available: 0 }
    );
    assert_eq!(
        decode::<User>(&[1]).unwrap_err(),
        CodecError::InsufficientBits { needed: 1, available: 0 }
    );
    assert_eq!(
        decode::<User>(&[1, 1, 5, b'a']).unwrap_err(),
        CodecError::InsufficientBits { needed: 48, available: 16 }
    );
}

#[test]
fn user_with_a_string_that_is_not_utf8_is_rejected() {
    let bytes = [1, 1, 1, 0x80, 0, 0];
    assert_eq!(decode::<User>(&bytes).unwrap_err(), CodecError::InvalidUtf8);
}

#[test]
fn user_with_a_string_too_long_is_refused() {
    let mut user = sample_user();
    user.background = PhiString("b".repeat(40000));
    assert_eq!(encode(&user).unwrap_err(), CodecError::ValueOutOfRange);
}

#[test]
fn summary_has_the_expected_bytes() {
    let bytes = encode(&sample_summary()).unwrap();
    assert_eq!(
        bytes,
        vec![
            6, 0x23, 0x01, 0x00, 0x00, 0x78, 0x41, 0x82, 0x01, 2, b'a', b'v', 1, 0, 2, 0, 3, 0, 4,
            0, 5, 0, 6, 0, 7, 0, 8, 0, 9, 0, 10, 0, 11, 0, 0x0d, 0x0c,
        ]
    );
    let back = decode::<Summary>(&bytes).unwrap();
    assert_eq!(back, sample_summary());
    assert_eq!(f32::from_bits(back.rks), 15.5);
}

#[test]
fn summary_with_a_game_version_out_of_range_is_refused() {
    let mut summary = sample_summary();
    summary.game_version = VarInt(40000);
    assert_eq!(encode(&summary).unwrap_err(), CodecError::ValueOutOfRange);
}

#[test]
fn summary_cut_short_is_a_shortage() {
    let bytes = encode(&sample_summary()).unwrap();
    assert_eq!(
        decode::<Summary>(&bytes[..bytes.len() - 1]).unwrap_err(),
        CodecError::InsufficientBits { needed: 16, available: 8 }
    );
    assert_eq!(
        decode::<Summary>(&bytes[..5]).unwrap_err(),
        CodecError::InsufficientBits { needed: 32, available: 16 }
    );
}

#[test]
fn settings_have_the_expected_bytes() {
    let bytes = encode(&sample_settings()).unwrap();
    let mut expected = vec![1, 0x0d, 3, b'd', b'e', b'v'];
    for slider in [1.0f32, 0.5, 0.25, 0.0, -0.125, 1.5] {
        expected.extend_from_slice(&slider.to_le_bytes());
    }
    assert_eq!(bytes, expected);
    let back = decode::<Settings>(&bytes).unwrap();
    assert_eq!(back, sample_settings());
    assert_eq!(f32::from_bits(back.sound_offset), -0.125);
}

#[test]
fn settings_keep_the_bits_of_a_number_that_is_none() {
    let mut settings = sample_settings();
    settings.bright = 0x7fc0_1234;
    let bytes = encode(&settings).unwrap();
    assert_eq!(decode::<Settings>(&bytes).unwrap().bright, 0x7fc0_1234);
}

#[test]
fn defaults_are_empty_records() {
    let user = User::default();
    assert_eq!(encode(&user).unwrap(), vec![0, 0, 0, 0, 0]);
    assert_eq!(decode::<User>(&[0, 0, 0, 0, 0]).unwrap(), user);
    let summary = Summary::default();
    assert_eq!(encode(&summary).unwrap(), vec![0u8; 33]);
    let settings = Settings { version: 3, ..Settings::default() };
    let bytes = encode(&settings).unwrap();
    assert_eq!(bytes.len(), 27);
    assert_eq!(bytes[0], 3);
    assert!(bytes[1..].iter().all(|b| *b == 0));
    assert_eq!(VarInt::default(), VarInt(0));
    assert_eq!(PhiString::default().0, "");
    assert_eq!(Level::default(), Level { clear: 0, fc: 0, phi: 0 });
}

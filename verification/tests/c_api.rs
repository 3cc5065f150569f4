use phi_save_codec::c_api::{
    build_game_key, build_game_progress, build_game_record, build_settings, build_summary,
    build_user, check_len, clear_last_error, empty_data, get_last_error, parse_game_key,
    parse_game_progress, parse_game_record, parse_settings, parse_summary, parse_user, set_error,
    BoundaryError, Data, LastError,
};
use phi_save_codec::error::CodecError;
use phi_save_codec::user::serde::SerializableUser;

#[test]
fn empty_data_is_null_and_empty() {
    assert_eq!(empty_data(), Data { len: 0, ptr: 0 });
}

#[test]
fn last_error_is_set_read_and_cleared() {
    let mut slot = LastError::new();
    assert!(get_last_error(&slot).is_empty());
    set_error(&mut slot, "first");
    set_error(&mut slot, "second é");
    assert_eq!(get_last_error(&slot), "second é".as_bytes().to_vec());
    assert_eq!(get_last_error(&slot), "second é".as_bytes().to_vec());
    assert!(clear_last_error(&mut slot));
    assert!(get_last_error(&slot).is_empty());
    assert!(clear_last_error(&mut slot));
}

#[test]
fn user_over_the_boundary() {
    let bytes = [1, 0x01, 2, b'h', b'i', 1, b'a', 0];
    let canonical = parse_user(&bytes).unwrap();
    assert_eq!(
        canonical,
        SerializableUser {
            version: 1,
            show_player_id: true,
            self_intro: "hi".to_string(),
            avatar: "a".to_string(),
            background: String::new(),
        }
    );
    assert_eq!(build_user(canonical).unwrap(), bytes.to_vec());
}

#[test]
fn empty_input_is_refused_for_every_record() {
    assert_eq!(parse_user(&[]).unwrap_err(), BoundaryError::EmptyInput);
    assert_eq!(parse_summary(&[]).unwrap_err(), BoundaryError::EmptyInput);
    assert_eq!(parse_settings(&[]).unwrap_err(), BoundaryError::EmptyInput);
    assert_eq!(parse_game_progress(&[]).unwrap_err(), BoundaryError::EmptyInput);
    assert_eq!(parse_game_key(&[]).unwrap_err(), BoundaryError::EmptyInput);
    assert_eq!(parse_game_record(&[]).unwrap_err(), BoundaryError::EmptyInput);
}

#[test]
fn failures_over_the_boundary_say_where_they_come_from() {
    assert_eq!(
        parse_user(&[1]).unwrap_err(),
        BoundaryError::Parse(CodecError::InsufficientBits { needed: 1, available: 0 })
    );
    assert_eq!(
        parse_game_progress(&[2, 0, 0]).unwrap_err(),
        BoundaryError::Parse(CodecError::UnsupportedVersion { version: 2 })
    );
    assert_eq!(
        parse_game_key(&[1, 0, 0]).unwrap_err(),
        BoundaryError::Parse(CodecError::UnsupportedVersion { version: 1 })
    );
    let too_long = SerializableUser {
        version: 1,
        show_player_id: false,
        self_intro: "x".repeat(32768),
        avatar: String::new(),
        background: String::new(),
    };
    assert_eq!(
        build_user(too_long).unwrap_err(),
        BoundaryError::Build(CodecError::ValueOutOfRange)
    );
}

#[test]
fn every_record_goes_over_the_boundary_and_back() {
    let summary = vec![
        6, 0x23, 0x01, 0x00, 0x00, 0x78, 0x41, 0x82, 0x01, 2, b'a', b'v', 1, 0, 2, 0, 3, 0, 4, 0,
        5, 0, 6, 0, 7, 0, 8, 0, 9, 0, 10, 0, 11, 0, 12, 0,
    ];
    let canonical = parse_summary(&summary).unwrap();
    assert_eq!(canonical.game_version, 130);
    assert_eq!(f32::from_bits(canonical.rks), 15.5);
    assert_eq!(build_summary(canonical).unwrap(), summary);

    let mut settings = vec![1, 0x0d, 3, b'd', b'e', b'v'];
    settings.extend_from_slice(&[0u8; 24]);
    let canonical = parse_settings(&settings).unwrap();
    assert_eq!(canonical.device_name, "dev");
    assert!(canonical.base.chord_support && !canonical.base.fc_ap_indicator);
    assert_eq!(build_settings(canonical).unwrap(), settings);

    let progress = vec![
        4, 0x05, 3, b'3', b'.', b'0', 2, 0x45, 0x03, 1, 0xc8, 0x01, 0, 0, 0, 0x09, 0x02, 0x0f,
        0x81, 0x23, 0x05, 0x04, 0x05,
    ];
    let canonical = parse_game_progress(&progress).unwrap();
    assert_eq!(canonical.money.mib, 200);
    assert_eq!(build_game_progress(canonical).unwrap(), progress);

    let keys = vec![3, 2, 2, b'a', b'b', 3, 0x03, 7, 1, 1, b'c', 2, 0x10, 1, 0x21, 0x02, 1, 0];
    let canonical = parse_game_key(&keys).unwrap();
    assert_eq!(canonical.keys.len(), 2);
    assert_eq!(build_game_key(canonical).unwrap(), keys);

    let record = vec![
        1, 1, 1, b's', 18, 0x05, 0x04, 100, 0, 0, 0, 0, 0, 0x48, 0x42, 200, 0, 0, 0, 0, 0, 0xb4,
        0x42,
    ];
    let canonical = parse_game_record(&record).unwrap();
    assert_eq!(canonical.songs.name(0), "s");
    assert_eq!(build_game_record(canonical).unwrap(), record);
}

#[test]
fn a_buffer_of_no_bytes_is_refused() {
    assert_eq!(check_len(0), Err(BoundaryError::InvalidLength));
    assert_eq!(check_len(1), Ok(()));
    assert_eq!(check_len(usize::MAX), Ok(()));
}

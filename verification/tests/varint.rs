use phi_save_codec::buffer::BitBuffer;
use phi_save_codec::cursor::BitCursor;
use phi_save_codec::error::{CodecError, ErrorKind};
use phi_save_codec::field::{decode, encode, BinaryField};
use phi_save_codec::phi_base::{PhiString, VarInt, VARINT_MAX};

#[test]
fn varint_one_byte_values() {
    assert_eq!(encode(&VarInt(0)).unwrap(), vec![0x00]);
    assert_eq!(encode(&VarInt(1)).unwrap(), vec![0x01]);
    assert_eq!(encode(&VarInt(127)).unwrap(), vec![0x7f]);
    assert_eq!(VarInt(0).bit_len(), 8);
    assert_eq!(VarInt(127).bit_len(), 8);
}

#[test]
fn varint_two_byte_values() {
    assert_eq!(encode(&VarInt(128)).unwrap(), vec![0x80, 0x01]);
    assert_eq!(encode(&VarInt(200)).unwrap(), vec![0xc8, 0x01]);
    assert_eq!(encode(&VarInt(300)).unwrap(), vec![0xac, 0x02]);
    assert_eq!(encode(&VarInt(32767)).unwrap(), vec![0xff, 0xff]);
    assert_eq!(VarInt(128).bit_len(), 16);
    assert_eq!(VarInt(32767).bit_len(), 16);
}

#[test]
fn varint_decodes_what_it_encodes() {
    for n in 0..=VARINT_MAX {
        let bytes = encode(&VarInt(n)).unwrap();
        assert_eq!(bytes.len() * 8, VarInt(n).bit_len());
        assert_eq!(decode::<VarInt>(&bytes).unwrap(), VarInt(n));
    }
}

#[test]
fn varint_decodes_known_bytes() {
    assert_eq!(decode::<VarInt>(&[0x80, 0x01]).unwrap(), VarInt(128));
    assert_eq!(decode::<VarInt>(&[0xff, 0xff]).unwrap(), VarInt(32767));
    assert_eq!(decode::<VarInt>(&[0x7f, 0xff]).unwrap(), VarInt(127));
    // A second byte of zero is read too: the top bit of the first asks for it.
    assert_eq!(decode::<VarInt>(&[0x85, 0x00]).unwrap(), VarInt(5));
    let (value, rest) = VarInt::parse(BitCursor::new(&[0x81, 0x02, 0x09]).unwrap()).unwrap();
    assert_eq!(value, VarInt(257));
    assert_eq!(rest.position(), 16);
}

#[test]
fn varint_without_its_second_byte_is_a_shortage() {
    let err = decode::<VarInt>(&[0x80]).unwrap_err();
    assert_eq!(err, CodecError::InsufficientBits { needed: 16, available: 8 });
    assert_eq!(err.kind(), ErrorKind::Structure);
    let err = decode::<VarInt>(&[]).unwrap_err();
    assert_eq!(err, CodecError::InsufficientBits { needed: 8, available: 0 });
}

#[test]
fn varint_beyond_its_range_is_refused() {
    assert_eq!(encode(&VarInt(32768)).unwrap_err(), CodecError::ValueOutOfRange);
    assert_eq!(encode(&VarInt(u16::MAX)).unwrap_err(), CodecError::ValueOutOfRange);
    let mut buf = BitBuffer::new();
    assert_eq!(VarInt(40000).build(&mut buf), Err(CodecError::ValueOutOfRange));
    assert_eq!(VarInt(40000).bit_len(), 16);
}

#[test]
fn varint_conversions() {
    assert_eq!(usize::from(VarInt(300)), 300usize);
    assert_eq!(u16::from(VarInt(300)), 300u16);
    assert_eq!(VarInt::from(7u16), VarInt(7));
}

#[test]
fn string_has_a_count_and_its_bytes() {
    let s: PhiString = "hi".into();
    assert_eq!(encode(&s).unwrap(), vec![0x02, b'h', b'i']);
    assert_eq!(s.bit_len(), 24);
    assert_eq!(encode(&PhiString(String::new())).unwrap(), vec![0x00]);
    let long = PhiString("x".repeat(200));
    let bytes = encode(&long).unwrap();
    assert_eq!(&bytes[..2], &[0xc8, 0x01]);
    assert_eq!(bytes.len(), 202);
    assert_eq!(long.bit_len(), 202 * 8);
    assert_eq!(decode::<PhiString>(&bytes).unwrap(), long);
}

#[test]
fn string_counts_bytes_not_characters() {
    let s = PhiString("é音".to_string());
    let bytes = encode(&s).unwrap();
    assert_eq!(bytes, vec![0x05, 0xc3, 0xa9, 0xe9, 0x9f, 0xb3]);
    assert_eq!(decode::<PhiString>(&bytes).unwrap().0, "é音");
    assert_eq!(String::from(decode::<PhiString>(&bytes).unwrap()), "é音".to_string());
}

#[test]
fn string_that_is_not_utf8_is_rejected() {
    // A lone continuation byte.
    let err = decode::<PhiString>(&[0x01, 0x80]).unwrap_err();
    assert_eq!(err, CodecError::InvalidUtf8);
    assert_eq!(err.kind(), ErrorKind::Encoding);
    // A sequence cut short, and one that is too long for what it encodes.
    assert_eq!(decode::<PhiString>(&[0x02, b'a', 0xc3]).unwrap_err(), CodecError::InvalidUtf8);
    assert_eq!(decode::<PhiString>(&[0x02, 0xc0, 0x80]).unwrap_err(), CodecError::InvalidUtf8);
    assert_eq!(decode::<PhiString>(&[0x01, b'a']).unwrap().0, "a");
}

#[test]
fn string_shorter_than_its_count_is_a_shortage() {
    assert_eq!(
        decode::<PhiString>(&[0x03, b'a', b'b']).unwrap_err(),
        CodecError::InsufficientBits { needed: 32, available: 24 }
    );
    assert_eq!(
        decode::<PhiString>(&[0x80, 0x01, b'a']).unwrap_err(),
        CodecError::InsufficientBits { needed: 16 + 128 * 8, available: 24 }
    );
}

#[test]
fn string_of_the_greatest_length_and_beyond() {
    let longest = PhiString("a".repeat(32767));
    assert!(longest.fits());
    let bytes = encode(&longest).unwrap();
    assert_eq!(bytes.len(), 32769);
    assert_eq!(decode::<PhiString>(&bytes).unwrap(), longest);
    let too_long = PhiString("a".repeat(32768));
    assert!(!too_long.fits());
    assert_eq!(encode(&too_long).unwrap_err(), CodecError::ValueOutOfRange);
}

#[test]
fn string_at_an_odd_bit_position() {
    let mut buf = BitBuffer::new();
    buf.write_flags(&[true, true, false]);
    PhiString("ok".to_string()).build(&mut buf).unwrap();
    let bytes = buf.into_bytes().unwrap();
    let cur = BitCursor::new(&bytes).unwrap();
    let (flags, cur) = cur.read_flags::<3>().unwrap();
    assert_eq!(flags, [true, true, false]);
    let (s, cur) = PhiString::parse(cur).unwrap();
    assert_eq!(s.0, "ok");
    assert_eq!(cur.position(), 27);
}

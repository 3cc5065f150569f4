use bitvec::field::BitField;
use bitvec::order::Lsb0;
use bitvec::slice::BitSlice;
use phi_save_codec::buffer::BitBuffer;
use phi_save_codec::cursor::BitCursor;
use phi_save_codec::error::{CodecError, ErrorKind};
use phi_save_codec::field::BinaryField;
use phi_save_codec::phi_base::{PhiString, VarInt};

#[test]
fn test_array() {
    let arr: [u8; 3] = [1, 2, 3];
    let mut buf = BitBuffer::new();
    buf.write_bytes(&arr);
    let bits = buf.into_bytes().unwrap();

    let (parsed, _) = BitCursor::new(&bits).unwrap().read_bytes(3).unwrap();

    assert_eq!(arr.to_vec(), parsed);
}

#[test]
fn test_struct_roundtrip() {
    let v: u8 = 99;
    let mut buf = BitBuffer::new();
    buf.write_u8(v);
    let bits = buf.into_bytes().unwrap();

    let (parsed, _) = BitCursor::new(&bits).unwrap().read_u8().unwrap();

    assert_eq!(v, parsed);
}

#[test]
fn test_nested_struct() {
    let h_v: u8 = 114;
    let a: u8 = 42;
    let b: u16 = 0x1234;
    let c: u32 = 0x87654321;
    let d: f32 = 3.14;
    let e = true;
    let f = VarInt(200);
    let g: PhiString = "hi".into();

    let mut buf = BitBuffer::new();
    buf.write_u8(h_v);
    buf.write_u8(a);
    buf.write_u16(b);
    buf.write_u32(c);
    buf.write_u32(d.to_bits());
    buf.write_bool(e);
    f.build(&mut buf).unwrap();
    g.build(&mut buf).unwrap();
    let bits = buf.into_bytes().unwrap();

    let cur = BitCursor::new(&bits).unwrap();
    let (parsed_h_v, cur) = cur.read_u8().unwrap();
    let (parsed_a, cur) = cur.read_u8().unwrap();
    let (parsed_b, cur) = cur.read_u16().unwrap();
    let (parsed_c, cur) = cur.read_u32().unwrap();
    let (parsed_d, cur) = cur.read_u32().unwrap();
    let (parsed_e, cur) = cur.read_bool().unwrap();
    let (parsed_f, cur) = VarInt::parse(cur).unwrap();
    let (parsed_g, _) = PhiString::parse(cur).unwrap();

    assert_eq!(parsed_h_v, h_v);
    assert_eq!(parsed_a, a);
    assert_eq!(parsed_b, b);
    assert_eq!(parsed_c, c);
    assert!((f32::from_bits(parsed_d) - d).abs() < f32::EPSILON);
    assert_eq!(parsed_e, e);
    assert_eq!(parsed_f.0, f.0);
    assert_eq!(parsed_g.0, g.0);
}

#[test]
fn nested_struct_has_the_expected_bytes() {
    let mut buf = BitBuffer::new();
    buf.write_u8(114);
    buf.write_u8(42);
    buf.write_u16(0x1234);
    buf.write_u32(0x87654321);
    buf.write_bool(true);
    buf.write_u8(0xff);
    let bytes = buf.into_bytes().unwrap();
    // The bit at position 64 is the flag; the byte 0xff follows it, unaligned.
    assert_eq!(
        bytes,
        vec![114, 42, 0x34, 0x12, 0x21, 0x43, 0x65, 0x87, 0xff, 0x01]
    );
}

#[test]
fn bits_are_numbered_from_the_least_significant() {
    let bytes = [0b0000_0101u8, 0b1000_0000];
    let cur = BitCursor::new(&bytes).unwrap();
    let (b0, cur) = cur.read_bool().unwrap();
    let (b1, cur) = cur.read_bool().unwrap();
    let (b2, cur) = cur.read_bool().unwrap();
    assert_eq!((b0, b1, b2), (true, false, true));
    assert_eq!(cur.position(), 3);
    assert_eq!(cur.remaining(), 13);
    let (flags, cur) = cur.read_flags::<13>().unwrap();
    assert!(flags[12]);
    assert!(flags[..12].iter().all(|f| !f));
    assert_eq!(cur.remaining(), 0);
}

#[test]
fn unaligned_integers_span_bytes() {
    // Four flag bits, then a byte that lies across two bytes of the buffer.
    let bytes = [0xa5u8, 0x3c];
    let cur = BitCursor::new(&bytes).unwrap();
    let (_, cur) = cur.read_flags::<4>().unwrap();
    let (value, cur) = cur.read_u8().unwrap();
    assert_eq!(value, 0xca);
    assert_eq!(cur.position(), 12);
}

#[test]
fn reading_agrees_with_the_bit_view() {
    let bytes: Vec<u8> = (0..32u32).map(|i| (i * 37 + 11) as u8).collect();
    let view = BitSlice::<u8, Lsb0>::from_slice(&bytes);
    for offset in 0..64usize {
        let cur = BitCursor::new(&bytes).unwrap();
        let (_, cur) = cur.read_uint(32).unwrap();
        let mut cur = cur;
        for _ in 0..offset {
            cur = cur.read_bool().unwrap().1;
        }
        let before = cur.position();
        let (v16, _) = cur.read_u16().unwrap();
        assert_eq!(v16, view[before..before + 16].load_le::<u16>());
        let (v32, _) = cur.read_u32().unwrap();
        assert_eq!(v32, view[before..before + 32].load_le::<u32>());
        let (flag, _) = cur.read_bool().unwrap();
        assert_eq!(flag, view[before]);
    }
}

#[test]
fn reading_agrees_with_the_primitives_of_the_schema_crate() {
    let bytes: Vec<u8> = vec![0x12, 0x34, 0x56, 0x78, 0x9a, 0xbc, 0xde, 0xf0];
    let view = BitSlice::<u8, Lsb0>::from_slice(&bytes);
    let cur = BitCursor::new(&bytes).unwrap();
    let (_, cur) = cur.read_flags::<3>().unwrap();
    let rest = &view[3..];
    assert_eq!(
        cur.read_u8().unwrap().0,
        <u8 as shua_struct::BinaryField<Lsb0>>::parse(rest, &()).unwrap()
    );
    assert_eq!(
        cur.read_u16().unwrap().0,
        <u16 as shua_struct::BinaryField<Lsb0>>::parse(rest, &()).unwrap()
    );
    assert_eq!(
        cur.read_u32().unwrap().0,
        <u32 as shua_struct::BinaryField<Lsb0>>::parse(rest, &()).unwrap()
    );
    assert_eq!(
        cur.read_bool().unwrap().0,
        <bool as shua_struct::BinaryField<Lsb0, ()>>::parse(rest, &()).unwrap()
    );
    assert_eq!(
        f32::from_bits(cur.read_u32().unwrap().0),
        <f32 as shua_struct::BinaryField<Lsb0>>::parse(rest, &()).unwrap()
    );
}

#[test]
fn writing_agrees_with_the_primitives_of_the_schema_crate() {
    let value: u32 = 0xdead_beef;
    let theirs = <u32 as shua_struct::BinaryField<Lsb0>>::to_bitvec(&value, &())
        .unwrap()
        .into_vec();
    let mut buf = BitBuffer::new();
    buf.write_u32(value);
    assert_eq!(buf.into_bytes().unwrap(), theirs);

    let short: u16 = 0x1234;
    let theirs = <u16 as shua_struct::BinaryField<Lsb0>>::to_bitvec(&short, &())
        .unwrap()
        .into_vec();
    let mut buf = BitBuffer::new();
    buf.write_u16(short);
    assert_eq!(buf.into_bytes().unwrap(), theirs);

    let arr: [u8; 3] = [1, 2, 3];
    let theirs = <[u8; 3] as shua_struct::BinaryField<Lsb0, ()>>::to_bitvec(&arr, &())
        .unwrap()
        .into_vec();
    let mut buf = BitBuffer::new();
    buf.write_bytes(&arr);
    assert_eq!(buf.into_bytes().unwrap(), theirs);
}

#[test]
fn writing_keeps_what_was_written_before() {
    let mut buf = BitBuffer::new();
    buf.write_flags(&[true, false, true]);
    buf.write_u16(0xffff);
    buf.write_bool(false);
    buf.write_uint(0b101, 3);
    // bits: 1 0 1 | sixteen ones | 0 | 1 0 1, then padding
    assert_eq!(buf.into_bytes().unwrap(), vec![0xfd, 0xff, 0x57]);
}

#[test]
fn write_uint_keeps_the_low_bits_only() {
    let mut buf = BitBuffer::new();
    buf.write_uint(0xffff_ff05, 4);
    buf.write_uint(0x3, 4);
    assert_eq!(buf.into_bytes().unwrap(), vec![0x35]);
}

#[test]
fn align_pads_with_zeros_and_skips_on_reading() {
    let mut buf = BitBuffer::new();
    buf.write_bool(true);
    buf.align();
    buf.align();
    buf.write_u8(0x7e);
    let bytes = buf.into_bytes().unwrap();
    assert_eq!(bytes, vec![0x01, 0x7e]);

    let dirty = [0xffu8, 0x7e];
    let cur = BitCursor::new(&dirty).unwrap();
    let (flag, cur) = cur.read_bool().unwrap();
    assert!(flag);
    let cur = cur.align();
    assert_eq!(cur.position(), 8);
    assert_eq!(cur.align().position(), 8);
    assert_eq!(cur.read_u8().unwrap().0, 0x7e);
}

#[test]
fn an_empty_buffer_gives_no_bytes() {
    assert_eq!(BitBuffer::new().into_bytes().unwrap(), Vec::<u8>::new());
    let mut buf = BitBuffer::new();
    buf.align();
    assert_eq!(buf.into_bytes().unwrap(), Vec::<u8>::new());
}

#[test]
fn shortage_says_what_was_needed_and_what_was_left() {
    let bytes = [0u8; 3];
    let cur = BitCursor::new(&bytes).unwrap();
    let (_, cur) = cur.read_u8().unwrap();
    assert_eq!(
        cur.read_u32().unwrap_err(),
        CodecError::InsufficientBits { needed: 32, available: 16 }
    );
    let (_, cur) = cur.read_u16().unwrap();
    assert_eq!(
        cur.read_u8().unwrap_err(),
        CodecError::InsufficientBits { needed: 8, available: 0 }
    );
    assert_eq!(
        cur.read_bool().unwrap_err(),
        CodecError::InsufficientBits { needed: 1, available: 0 }
    );
    assert_eq!(
        BitCursor::new(&bytes).unwrap().read_flags::<25>().unwrap_err(),
        CodecError::InsufficientBits { needed: 1, available: 0 }
    );
    assert_eq!(
        BitCursor::new(&bytes).unwrap().read_bool().unwrap().1.read_bytes(3).unwrap_err(),
        CodecError::InsufficientBits { needed: 8, available: 7 }
    );
    assert_eq!(cur.read_u8().unwrap_err().kind(), ErrorKind::Structure);
}

#[test]
fn error_kinds_and_reasons() {
    assert_eq!(CodecError::InvalidUtf8.kind(), ErrorKind::Encoding);
    assert_eq!(CodecError::ValueOutOfRange.kind(), ErrorKind::Encoding);
    assert_eq!(CodecError::TooLarge.kind(), ErrorKind::Boundary);
    let old = CodecError::UnsupportedVersion { version: 1 };
    assert_eq!(old.kind(), ErrorKind::Validation);
    assert_eq!(old.reason(), Some("Not supported".to_string()));
    assert_eq!(CodecError::InvalidUtf8.reason(), None);
}

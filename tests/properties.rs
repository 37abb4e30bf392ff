use protobuf_zero::{
    advance, decode_fixed_32, decode_fixed_64, decode_tag, decode_var_int, decode_var_length,
    decode_var_signed_i64, peek_bytes, run_test, same_bytes, zigzag_decode, ProtobufZeroError, WireType,
    WireTypeError,
};

fn encode_varint(mut v: u64) -> Vec<u8> {
    let mut out = Vec::new();
    while v >= 0x80 {
        out.push((v as u8 & 0x7f) | 0x80);
        v >>= 7;
    }
    out.push(v as u8);
    out
}

#[test]
fn empty_input_fails_everywhere_and_stays_empty() {
    let empty: &[u8] = &[];

    let mut c = empty;
    assert_eq!(decode_var_int::<u64>(&mut c), Err(ProtobufZeroError::ShortBuffer));
    assert!(c.is_empty());

    let mut c = empty;
    assert_eq!(decode_tag(&mut c), Err(ProtobufZeroError::ShortBuffer));
    assert!(c.is_empty());

    let mut c = empty;
    assert_eq!(decode_var_signed_i64(&mut c), Err(ProtobufZeroError::ShortBuffer));
    assert!(c.is_empty());

    let mut c = empty;
    assert_eq!(decode_var_length(&mut c), Err(ProtobufZeroError::ShortBuffer));
    assert!(c.is_empty());

    let mut c = empty;
    assert_eq!(decode_fixed_32::<u32>(&mut c), Err(ProtobufZeroError::ShortBuffer));
    assert!(c.is_empty());

    let mut c = empty;
    assert_eq!(decode_fixed_64::<u64>(&mut c), Err(ProtobufZeroError::ShortBuffer));
    assert!(c.is_empty());
}

#[test]
fn varint_round_trip_on_chosen_values() {
    let values = [
        0u64,
        1,
        127,
        128,
        300,
        16383,
        16384,
        u32::MAX as u64,
        (1u64 << 56) - 1,
        1u64 << 56,
        (1u64 << 63) - 1,
        1u64 << 63,
        u64::MAX,
    ];
    for v in values {
        let mut bytes = encode_varint(v);
        let len = bytes.len();
        bytes.extend_from_slice(&[0x99, 0x01]);
        let mut c: &[u8] = &bytes;
        assert_eq!(decode_var_int::<u64>(&mut c), Ok(v));
        assert_eq!(c, &[0x99, 0x01]);
        assert!(len <= 10);
    }
    assert_eq!(encode_varint(u64::MAX).len(), 10);
}

#[test]
fn varint_tenth_byte_extra_bits_are_dropped() {
    let bytes = [0xff, 0xff, 0xff, 0xff, 0xff, 0xff, 0xff, 0xff, 0xff, 0x7f, 0x05];
    let mut c: &[u8] = &bytes;
    assert_eq!(decode_var_int::<u64>(&mut c), Ok(u64::MAX));
    assert_eq!(c, &[0x05]);

    let bytes = [0x80, 0x80, 0x80, 0x80, 0x80, 0x80, 0x80, 0x80, 0x80, 0x02];
    let mut c: &[u8] = &bytes;
    assert_eq!(decode_var_int::<u64>(&mut c), Ok(0));
    assert!(c.is_empty());
}

#[test]
fn varint_past_ten_bytes_reads_to_its_end() {
    let bytes = [0x81, 0x80, 0x80, 0x80, 0x80, 0x80, 0x80, 0x80, 0x80, 0x80, 0x01, 0x2a];
    let mut c: &[u8] = &bytes;
    assert_eq!(decode_var_int::<u64>(&mut c), Ok(1));
    assert_eq!(c, &[0x2a]);
}

#[test]
fn varint_truncates_to_narrow_targets() {
    let bytes = [0xac, 0x02];
    let mut c: &[u8] = &bytes;
    assert_eq!(decode_var_int::<u8>(&mut c), Ok(44));
    assert!(c.is_empty());

    let bytes = [0x80, 0x80, 0x04];
    let mut c: &[u8] = &bytes;
    assert_eq!(decode_var_int::<u16>(&mut c), Ok(0));

    let bytes = [0x85, 0x80, 0x80, 0x80, 0x10];
    let mut c: &[u8] = &bytes;
    assert_eq!(decode_var_int::<u32>(&mut c), Ok(5));
}

#[test]
fn varint_short_deep_in_value_keeps_cursor() {
    let bytes = [0x80, 0x80, 0x80, 0x80, 0x80];
    let mut c: &[u8] = &bytes;
    assert_eq!(decode_var_int::<u64>(&mut c), Err(ProtobufZeroError::ShortBuffer));
    assert_eq!(c, &bytes[..]);
}

#[test]
fn tag_low_bits_choose_the_wire_type() {
    let expected = [
        Some(WireType::VarInt),
        Some(WireType::Fixed64),
        Some(WireType::LengthDelimited),
        Some(WireType::StartGroup),
        Some(WireType::EndGroup),
        Some(WireType::Fixed32),
        None,
        None,
    ];
    for code in 0u8..8 {
        let bytes = [(3 << 3) | code, 0x44];
        let mut c: &[u8] = &bytes;
        let r = decode_tag(&mut c);
        match expected[code as usize] {
            Some(w) => {
                assert_eq!(r, Ok((w, 3)));
                assert_eq!(c, &[0x44]);
            }
            None => {
                assert_eq!(
                    r,
                    Err(ProtobufZeroError::InvalidWireType(WireTypeError::Unknown(code)))
                );
                assert_eq!(c, &bytes[..]);
            }
        }
    }
}

#[test]
fn invalid_multi_byte_tag_keeps_cursor() {
    let bytes = [0x96, 0x01, 0x00];
    let mut c: &[u8] = &bytes;
    assert_eq!(
        decode_tag(&mut c),
        Err(ProtobufZeroError::InvalidWireType(WireTypeError::Unknown(6)))
    );
    assert_eq!(c, &bytes[..]);
}

#[test]
fn wire_type_codes() {
    assert_eq!(WireType::from_code(0), Ok(WireType::VarInt));
    assert_eq!(WireType::from_code(5), Ok(WireType::Fixed32));
    assert_eq!(WireType::from_code(6), Err(WireTypeError::Unknown(6)));
    assert_eq!(WireType::from_code(200), Err(WireTypeError::Unknown(200)));
}

#[test]
fn zigzag_small_values_alternate_sign() {
    let cases: [(u8, i64); 4] = [(0x00, 0), (0x01, -1), (0x02, 1), (0x03, -2)];
    for (byte, value) in cases {
        let bytes = [byte];
        let mut c: &[u8] = &bytes;
        assert_eq!(decode_var_signed_i64(&mut c), Ok(value));
        assert!(c.is_empty());
    }
}

#[test]
fn zigzag_extremes() {
    assert_eq!(zigzag_decode(u64::MAX), i64::MIN);
    assert_eq!(zigzag_decode(u64::MAX - 1), i64::MAX);
    assert_eq!(zigzag_decode(4), 2);
    assert_eq!(zigzag_decode(7), -4);
}

#[test]
fn length_prefix_testing_and_truncated() {
    let bytes = [0x07, b't', b'e', b's', b't', b'i', b'n', b'g'];
    let mut c: &[u8] = &bytes;
    assert_eq!(decode_var_length(&mut c), Ok(&b"testing"[..]));
    assert!(c.is_empty());

    let short = &bytes[..7];
    let mut c: &[u8] = short;
    assert_eq!(decode_var_length(&mut c), Err(ProtobufZeroError::ShortBuffer));
    assert_eq!(c, short);
}

#[test]
fn length_prefix_zero_and_huge() {
    let bytes = [0x00, 0x11];
    let mut c: &[u8] = &bytes;
    assert_eq!(decode_var_length(&mut c), Ok(&[][..]));
    assert_eq!(c, &[0x11]);

    let bytes = [0xff, 0xff, 0xff, 0xff, 0xff, 0xff, 0xff, 0xff, 0xff, 0x01, 0x00];
    let mut c: &[u8] = &bytes;
    assert_eq!(decode_var_length(&mut c), Err(ProtobufZeroError::ShortBuffer));
    assert_eq!(c, &bytes[..]);
}

#[test]
fn fixed_width_floats_exact() {
    let bytes = [0x00, 0x00, 0x28, 0x42, 0xaa];
    let mut c: &[u8] = &bytes;
    assert_eq!(decode_fixed_32::<u32>(&mut c).map(f32::from_bits), Ok(42.0f32));
    assert_eq!(c, &[0xaa]);

    let bytes = [0x00, 0x00, 0x00, 0x00, 0x00, 0x00, 0x22, 0x40];
    let mut c: &[u8] = &bytes;
    assert_eq!(decode_fixed_64::<u64>(&mut c).map(f64::from_bits), Ok(9.0f64));
    assert!(c.is_empty());
}

#[test]
fn peek_and_advance() {
    let bytes = [1u8, 2, 3];
    let c: &[u8] = &bytes;
    assert_eq!(peek_bytes(c, 2), Ok(&[1u8, 2][..]));
    assert_eq!(peek_bytes(c, 4), Err(ProtobufZeroError::ShortBuffer));
    let mut c: &[u8] = &bytes;
    advance(&mut c, 2);
    assert_eq!(c, &[3]);
}

#[test]
fn decodes_in_sequence() {
    // field 1, varint 150; field 2, "hi"; field 3, fixed32 7
    let bytes = [0x08, 0x96, 0x01, 0x12, 0x02, b'h', b'i', 0x1d, 0x07, 0x00, 0x00, 0x00];
    let mut c: &[u8] = &bytes;
    assert_eq!(decode_tag(&mut c), Ok((WireType::VarInt, 1)));
    assert_eq!(decode_var_int::<u64>(&mut c), Ok(150));
    assert_eq!(decode_tag(&mut c), Ok((WireType::LengthDelimited, 2)));
    assert_eq!(decode_var_length(&mut c), Ok(&b"hi"[..]));
    assert_eq!(decode_tag(&mut c), Ok((WireType::Fixed32, 3)));
    assert_eq!(decode_fixed_32::<u32>(&mut c), Ok(7));
    assert!(c.is_empty());
}

#[test]
fn run_test_reports_mismatches() {
    let bytes: &'static [u8] = &[0x96, 0x01, 0x07];
    assert!(run_test(bytes, 2, Ok(150u64), decode_var_int::<u64>));
    assert!(!run_test(bytes, 2, Ok(151u64), decode_var_int::<u64>));
    assert!(!run_test(bytes, 1, Ok(150u64), decode_var_int::<u64>));
    assert!(!run_test(bytes, 4, Ok(150u64), decode_var_int::<u64>));
}

#[test]
fn same_bytes_compares_contents() {
    assert!(same_bytes(&[1, 2, 3], &[1, 2, 3]));
    assert!(!same_bytes(&[1, 2, 3], &[1, 2, 4]));
    assert!(!same_bytes(&[1, 2], &[1, 2, 3]));
    assert!(same_bytes(&[], &[]));
}

#[test]
fn run_test_compares_tags_and_slices() {
    let tag: &'static [u8] = &[0x22, 0x61];
    assert!(run_test(tag, 1, Ok((WireType::LengthDelimited, 4)), decode_tag));
    assert!(!run_test(tag, 1, Ok((WireType::VarInt, 4)), decode_tag));
    assert!(!run_test(tag, 1, Ok((WireType::LengthDelimited, 5)), decode_tag));

    let data: &'static [u8] = &[0x02, 0x61, 0x62];
    assert!(run_test(data, 3, Ok(&b"ab"[..]), decode_var_length));
    assert!(!run_test(data, 3, Ok(&b"ac"[..]), decode_var_length));
    assert!(!run_test(data, 0, Ok(&b"ab"[..]), decode_var_length));
    assert!(!run_test(data, 3, Err(ProtobufZeroError::ShortBuffer), decode_var_length));

    let empty: &'static [u8] = &[];
    assert!(run_test(empty, 0, Err(ProtobufZeroError::ShortBuffer), decode_tag));
}

#[test]
fn zigzag_round_trip_on_chosen_values() {
    for i in [0i64, 1, -1, 2, -2, 63, -64, 1 << 40, i64::MAX, i64::MIN] {
        let code = ((i << 1) ^ (i >> 63)) as u64;
        let mut bytes = encode_varint(code);
        bytes.push(0x33);
        let mut c: &[u8] = &bytes;
        assert_eq!(decode_var_signed_i64(&mut c), Ok(i));
        assert_eq!(c, &[0x33]);
        assert_eq!(zigzag_decode(code), i);
    }
}

use bancho::wire::{
    decode_i32_array, decode_length_string, length_string_fits_wire, put_i16_le, put_i32_le,
    put_i64_le, put_length_string, put_u16_le, put_u32_le, put_u64_le, put_u8, read_u16_le_at,
    read_u32_le_at, DecodeError,
};

#[test]
fn integers_are_written_least_significant_byte_first() {
    let mut out = Vec::new();
    put_u8(&mut out, 0xab);
    put_u16_le(&mut out, 0x1234);
    put_u32_le(&mut out, 0x0102_0304);
    assert_eq!(out, vec![0xab, 0x34, 0x12, 0x04, 0x03, 0x02, 0x01]);
    let mut out = Vec::new();
    put_u64_le(&mut out, 0x0102_0304_0506_0708);
    assert_eq!(out, vec![8, 7, 6, 5, 4, 3, 2, 1]);
}

#[test]
fn signed_integers_are_written_in_twos_complement() {
    let mut out = Vec::new();
    put_i16_le(&mut out, -2);
    put_i32_le(&mut out, -1);
    put_i64_le(&mut out, -256);
    assert_eq!(
        out,
        vec![0xfe, 0xff, 0xff, 0xff, 0xff, 0xff, 0x00, 0xff, 0xff, 0xff, 0xff, 0xff, 0xff, 0xff]
    );
}

#[test]
fn integers_are_read_least_significant_byte_first() {
    let buf = [9, 0x34, 0x12, 0x04, 0x03, 0x02, 0x01];
    assert_eq!(read_u16_le_at(&buf, 1), 0x1234);
    assert_eq!(read_u32_le_at(&buf, 3), 0x0102_0304);
}

#[test]
fn length_strings_carry_a_presence_byte_and_a_byte_length() {
    let mut out = Vec::new();
    put_length_string(&mut out, "abc");
    assert_eq!(out, vec![1, 3, b'a', b'b', b'c']);
    let mut out = Vec::new();
    put_length_string(&mut out, "é");
    assert_eq!(out, vec![1, 2, 0xc3, 0xa9]);
    let mut out = Vec::new();
    put_length_string(&mut out, "");
    assert_eq!(out, vec![1, 0]);
}

#[test]
fn only_strings_shorter_than_127_bytes_fit() {
    assert!(length_string_fits_wire(&"x".repeat(126)));
    assert!(!length_string_fits_wire(&"x".repeat(127)));
    assert!(!length_string_fits_wire(&"é".repeat(64)));
    assert!(length_string_fits_wire(&"é".repeat(63)));
}

#[test]
fn a_written_string_reads_back() {
    for s in ["", "abc", "#osu", "héllo wörld", "日本語", &"z".repeat(126)] {
        let mut out = Vec::new();
        put_length_string(&mut out, s);
        let written = out.len();
        out.extend_from_slice(&[7, 7, 7]);
        let (back, used) = decode_length_string(&out).unwrap();
        assert_eq!(back, s);
        assert_eq!(used, written);
    }
}

#[test]
fn string_decoding_asks_for_the_bytes_it_lacks() {
    assert_eq!(decode_length_string(&[]), Err(DecodeError::Incomplete { needed: 1 }));
    assert_eq!(decode_length_string(&[1]), Err(DecodeError::Incomplete { needed: 2 }));
    assert_eq!(decode_length_string(&[1, 3, b'a']), Err(DecodeError::Incomplete { needed: 5 }));
    assert_eq!(decode_length_string(&[1, 255]), Err(DecodeError::Incomplete { needed: 257 }));
}

#[test]
fn string_decoding_refuses_absent_strings_and_bad_utf8() {
    assert_eq!(decode_length_string(&[0]), Err(DecodeError::NullString));
    assert_eq!(decode_length_string(&[0, 3, b'a', b'b', b'c']), Err(DecodeError::NullString));
    assert_eq!(decode_length_string(&[1, 2, 0xff, 0xfe]), Err(DecodeError::InvalidUtf8));
    assert_eq!(decode_length_string(&[1, 1, 0xc3]), Err(DecodeError::InvalidUtf8));
}

#[test]
fn any_nonzero_presence_byte_marks_a_string() {
    assert_eq!(
        decode_length_string(&[0x0b, 2, b'h', b'i']),
        Ok(("hi".to_string(), 4))
    );
}

#[test]
fn arrays_decode_count_then_values() {
    let buf = [2, 0, 1, 0, 0, 0, 0xfe, 0xff, 0xff, 0xff, 42];
    assert_eq!(decode_i32_array(&buf), Ok((vec![1, -2], 10)));
    assert_eq!(decode_i32_array(&[0, 0, 9]), Ok((vec![], 2)));
}

#[test]
fn array_decoding_asks_for_the_bytes_it_lacks() {
    assert_eq!(decode_i32_array(&[]), Err(DecodeError::Incomplete { needed: 2 }));
    assert_eq!(decode_i32_array(&[5]), Err(DecodeError::Incomplete { needed: 2 }));
    assert_eq!(
        decode_i32_array(&[2, 0, 1, 0, 0, 0]),
        Err(DecodeError::Incomplete { needed: 10 })
    );
}

#[test]
fn array_decoding_refuses_a_negative_count() {
    assert_eq!(
        decode_i32_array(&[0xff, 0xff]),
        Err(DecodeError::NegativeLength { length: -1 })
    );
    assert_eq!(
        decode_i32_array(&[0x00, 0x80, 1, 2, 3]),
        Err(DecodeError::NegativeLength { length: i16::MIN })
    );
}

#[test]
fn a_decided_string_does_not_change_with_later_bytes() {
    let first = decode_length_string(&[1, 2, b'o', b'k']);
    let later = decode_length_string(&[1, 2, b'o', b'k', 1, 2, 3]);
    assert_eq!(first, later);
    assert_eq!(decode_length_string(&[0]), decode_length_string(&[0, 1, 2]));
}

#[test]
fn written_integers_read_back_as_an_array() {
    let mut out = Vec::new();
    put_i16_le(&mut out, 3);
    for v in [-7, i32::MIN, i32::MAX] {
        put_i32_le(&mut out, v);
    }
    assert_eq!(decode_i32_array(&out), Ok((vec![-7, i32::MIN, i32::MAX], 14)));
}

#[test]
fn a_decided_array_does_not_change_with_later_bytes() {
    let bytes = [1, 0, 5, 0, 0, 0];
    let mut longer = bytes.to_vec();
    longer.extend_from_slice(&[9, 9]);
    assert_eq!(decode_i32_array(&bytes), decode_i32_array(&longer));
    assert_eq!(decode_i32_array(&[0xff, 0xff]), decode_i32_array(&[0xff, 0xff, 1]));
}

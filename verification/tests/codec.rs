use lcm::message::{decode_with_hash, encode_with_hash};
use lcm::primitives::{
    BOOLEAN_FINGERPRINT, BYTE_FINGERPRINT, INT16_FINGERPRINT, INT32_FINGERPRINT,
    INT64_FINGERPRINT, INT8_FINGERPRINT, MAX_STRING_BYTES, STRING_FINGERPRINT,
};
use lcm::{DecodeError, Message};

fn frame_of(fingerprint: u64, body: &[u8]) -> Vec<u8> {
    let mut frame = fingerprint.to_be_bytes().to_vec();
    frame.extend_from_slice(body);
    frame
}

#[test]
fn fingerprints_spell_the_wire_names() {
    assert_eq!(&BOOLEAN_FINGERPRINT.to_be_bytes(), b"boolean\0");
    assert_eq!(&BYTE_FINGERPRINT.to_be_bytes(), b"byte\0\0\0\0");
    assert_eq!(&INT8_FINGERPRINT.to_be_bytes(), b"int8_t\0\0");
    assert_eq!(&INT16_FINGERPRINT.to_be_bytes(), b"int16_t\0");
    assert_eq!(&INT32_FINGERPRINT.to_be_bytes(), b"int32_t\0");
    assert_eq!(&INT64_FINGERPRINT.to_be_bytes(), b"int64_t\0");
    assert_eq!(&STRING_FINGERPRINT.to_be_bytes(), b"string\0\0");
    assert_eq!(<bool as Message>::hash(), BOOLEAN_FINGERPRINT);
    assert_eq!(<u8 as Message>::hash(), BYTE_FINGERPRINT);
    assert_eq!(<i8 as Message>::hash(), INT8_FINGERPRINT);
    assert_eq!(<i16 as Message>::hash(), INT16_FINGERPRINT);
    assert_eq!(<i32 as Message>::hash(), INT32_FINGERPRINT);
    assert_eq!(<i64 as Message>::hash(), INT64_FINGERPRINT);
    assert_eq!(<String as Message>::hash(), STRING_FINGERPRINT);
}

#[test]
fn fingerprints_differ_pairwise() {
    let all = [
        BOOLEAN_FINGERPRINT,
        BYTE_FINGERPRINT,
        INT8_FINGERPRINT,
        INT16_FINGERPRINT,
        INT32_FINGERPRINT,
        INT64_FINGERPRINT,
        STRING_FINGERPRINT,
    ];
    for i in 0..all.len() {
        for j in 0..all.len() {
            assert_eq!(all[i] == all[j], i == j);
        }
    }
}

#[test]
fn integers_encode_in_network_byte_order() {
    assert_eq!(0x1234i16.encode(), vec![0x12, 0x34]);
    assert_eq!(0x1234_5678i32.encode(), vec![0x12, 0x34, 0x56, 0x78]);
    assert_eq!(
        0x0102_0304_0506_0708i64.encode(),
        vec![0x01, 0x02, 0x03, 0x04, 0x05, 0x06, 0x07, 0x08]
    );
    assert_eq!(0x7fu8.encode(), vec![0x7f]);
    assert_eq!(0xffu8.encode(), vec![0xff]);
}

#[test]
fn negative_integers_encode_in_twos_complement() {
    assert_eq!((-1i8).encode(), vec![0xff]);
    assert_eq!(i8::MIN.encode(), vec![0x80]);
    assert_eq!((-2i16).encode(), vec![0xff, 0xfe]);
    assert_eq!(i16::MIN.encode(), vec![0x80, 0x00]);
    assert_eq!((-1i32).encode(), vec![0xff, 0xff, 0xff, 0xff]);
    assert_eq!(i32::MIN.encode(), vec![0x80, 0x00, 0x00, 0x00]);
    assert_eq!((-256i64).encode(), vec![0xff, 0xff, 0xff, 0xff, 0xff, 0xff, 0xff, 0x00]);
    assert_eq!(i64::MIN.encode(), vec![0x80, 0, 0, 0, 0, 0, 0, 0]);
}

#[test]
fn integers_agree_with_the_standard_byte_order() {
    for &x in &[0i16, 1, -1, 255, 256, -257, i16::MAX, i16::MIN, 0x1234] {
        assert_eq!(x.encode(), x.to_be_bytes().to_vec());
        assert_eq!(i16::decode(&x.to_be_bytes()), Ok(x));
    }
    for &x in &[0i32, 1, -1, 65535, 65536, -65537, i32::MAX, i32::MIN, 0x1234_5678] {
        assert_eq!(x.encode(), x.to_be_bytes().to_vec());
        assert_eq!(i32::decode(&x.to_be_bytes()), Ok(x));
    }
    for &x in &[0i64, 1, -1, 1 << 32, -(1 << 32) - 1, i64::MAX, i64::MIN, 0x0102_0304_0506_0708] {
        assert_eq!(x.encode(), x.to_be_bytes().to_vec());
        assert_eq!(i64::decode(&x.to_be_bytes()), Ok(x));
    }
    for x in i8::MIN..=i8::MAX {
        assert_eq!(x.encode(), x.to_be_bytes().to_vec());
        assert_eq!(i8::decode(&x.to_be_bytes()), Ok(x));
    }
    for x in u8::MIN..=u8::MAX {
        assert_eq!(x.encode(), vec![x]);
        assert_eq!(u8::decode(&[x]), Ok(x));
    }
}

#[test]
fn booleans_are_one_byte() {
    assert_eq!(true.encode(), vec![1]);
    assert_eq!(false.encode(), vec![0]);
    assert_eq!(bool::decode(&[1]), Ok(true));
    assert_eq!(bool::decode(&[0]), Ok(false));
    assert_eq!(bool::decode(&[2]), Err(DecodeError::Malformed));
    assert_eq!(bool::decode(&[0xff]), Err(DecodeError::Malformed));
    assert_eq!(bool::decode(&[]), Err(DecodeError::Truncated));
}

#[test]
fn strings_carry_their_length_and_a_closing_zero() {
    assert_eq!("ping".to_string().encode(), vec![0, 0, 0, 5, b'p', b'i', b'n', b'g', 0]);
    assert_eq!(String::new().encode(), vec![0, 0, 0, 1, 0]);
    assert_eq!(
        "h\u{e9}".to_string().encode(),
        vec![0, 0, 0, 4, b'h', 0xc3, 0xa9, 0]
    );
    let long = "a".repeat(300);
    let bytes = long.encode();
    assert_eq!(bytes.len(), 305);
    assert_eq!(&bytes[..4], &[0, 0, 0x01, 0x2d]);
    assert_eq!(bytes[304], 0);
}

#[test]
fn the_longest_string_fits_a_signed_length() {
    assert_eq!(MAX_STRING_BYTES as u64 + 1, i32::MAX as u64);
}

#[test]
fn strings_decode() {
    assert_eq!(
        String::decode(&[0, 0, 0, 5, b'p', b'i', b'n', b'g', 0]),
        Ok("ping".to_string())
    );
    assert_eq!(String::decode(&[0, 0, 0, 1, 0]), Ok(String::new()));
    assert_eq!(
        String::decode(&[0, 0, 0, 4, b'h', 0xc3, 0xa9, 0]),
        Ok("h\u{e9}".to_string())
    );
    assert_eq!(
        String::decode(&[0, 0, 0, 4, b'a', 0, b'b', 0]),
        Ok("a\0b".to_string())
    );
}

#[test]
fn bytes_after_a_value_are_left_alone() {
    assert_eq!(String::decode(&[0, 0, 0, 2, b'x', 0, 9, 9, 9]), Ok("x".to_string()));
    assert_eq!(i16::decode(&[0, 7, 1, 2, 3]), Ok(7));
    assert_eq!(u8::decode(&[7, 8]), Ok(7));
}

#[test]
fn truncated_values_are_refused() {
    assert_eq!(i8::decode(&[]), Err(DecodeError::Truncated));
    assert_eq!(u8::decode(&[]), Err(DecodeError::Truncated));
    assert_eq!(i16::decode(&[1]), Err(DecodeError::Truncated));
    assert_eq!(i32::decode(&[1, 2, 3]), Err(DecodeError::Truncated));
    assert_eq!(i64::decode(&[1, 2, 3, 4, 5, 6, 7]), Err(DecodeError::Truncated));
    assert_eq!(String::decode(&[0, 0, 0]), Err(DecodeError::Truncated));
    assert_eq!(String::decode(&[0, 0, 0, 5, b'p', b'i', b'n', b'g']), Err(DecodeError::Truncated));
    assert_eq!(String::decode(&[0, 0, 0, 1]), Err(DecodeError::Truncated));
    assert_eq!(String::decode(&[0x7f, 0xff, 0xff, 0xff, 0]), Err(DecodeError::Truncated));
}

#[test]
fn malformed_strings_are_refused() {
    // a length that leaves no room for the closing zero
    assert_eq!(String::decode(&[0, 0, 0, 0]), Err(DecodeError::Malformed));
    assert_eq!(String::decode(&[0, 0, 0, 0, 0]), Err(DecodeError::Malformed));
    // a negative length
    assert_eq!(String::decode(&[0xff, 0xff, 0xff, 0xff, 0]), Err(DecodeError::Malformed));
    assert_eq!(String::decode(&[0x80, 0, 0, 0, 0]), Err(DecodeError::Malformed));
    // no closing zero
    assert_eq!(String::decode(&[0, 0, 0, 2, b'x', b'y']), Err(DecodeError::Malformed));
    // bytes that are not UTF-8
    assert_eq!(String::decode(&[0, 0, 0, 2, 0xff, 0]), Err(DecodeError::Malformed));
    assert_eq!(String::decode(&[0, 0, 0, 3, 0xc3, 0x28, 0]), Err(DecodeError::Malformed));
    assert_eq!(String::decode(&[0, 0, 0, 4, 0xed, 0xa0, 0x80, 0]), Err(DecodeError::Malformed));
    assert_eq!(String::decode(&[0, 0, 0, 3, 0xc0, 0x80, 0]), Err(DecodeError::Malformed));
    assert_eq!(String::decode(&[0, 0, 0, 2, 0xc3, 0]), Err(DecodeError::Malformed));
}

#[test]
fn a_frame_is_fingerprint_then_bytes() {
    assert_eq!(
        encode_with_hash(&"ping".to_string()),
        vec![b's', b't', b'r', b'i', b'n', b'g', 0, 0, 0, 0, 0, 5, b'p', b'i', b'n', b'g', 0]
    );
    assert_eq!(
        encode_with_hash(&-2i32),
        vec![b'i', b'n', b't', b'3', b'2', b'_', b't', 0, 0xff, 0xff, 0xff, 0xfe]
    );
    assert_eq!(encode_with_hash(&true), frame_of(BOOLEAN_FINGERPRINT, &[1]));
    assert_eq!(encode_with_hash(&7u8), frame_of(BYTE_FINGERPRINT, &[7]));
    assert_eq!(encode_with_hash(&-7i8), frame_of(INT8_FINGERPRINT, &[0xf9]));
    assert_eq!(encode_with_hash(&258i16), frame_of(INT16_FINGERPRINT, &[1, 2]));
    assert_eq!(encode_with_hash(&1i64), frame_of(INT64_FINGERPRINT, &[0, 0, 0, 0, 0, 0, 0, 1]));
}

#[test]
fn frames_round_trip() {
    for &x in &[true, false] {
        assert_eq!(decode_with_hash::<bool>(&encode_with_hash(&x)), Ok(x));
    }
    for &x in &[0u8, 1, 127, 128, 255] {
        assert_eq!(decode_with_hash::<u8>(&encode_with_hash(&x)), Ok(x));
    }
    for &x in &[0i8, 1, -1, i8::MAX, i8::MIN] {
        assert_eq!(decode_with_hash::<i8>(&encode_with_hash(&x)), Ok(x));
    }
    for &x in &[0i16, 1, -1, 300, -300, i16::MAX, i16::MIN] {
        assert_eq!(decode_with_hash::<i16>(&encode_with_hash(&x)), Ok(x));
    }
    for &x in &[0i32, 1, -1, 70000, -70000, i32::MAX, i32::MIN] {
        assert_eq!(decode_with_hash::<i32>(&encode_with_hash(&x)), Ok(x));
    }
    for &x in &[0i64, 1, -1, 1 << 40, -(1 << 40), i64::MAX, i64::MIN] {
        assert_eq!(decode_with_hash::<i64>(&encode_with_hash(&x)), Ok(x));
    }
    for x in ["", "ping", "Charles", "a\0b", "gr\u{fc}\u{df}e", "\u{1f980}\u{10ffff}"] {
        let x = x.to_string();
        assert_eq!(decode_with_hash::<String>(&encode_with_hash(&x)), Ok(x));
    }
}

#[test]
fn a_flipped_fingerprint_is_a_type_mismatch() {
    let good = encode_with_hash(&"ping".to_string());
    for byte in 0..8 {
        for bit in 0..8 {
            let mut frame = good.clone();
            frame[byte] ^= 1 << bit;
            assert_eq!(decode_with_hash::<String>(&frame), Err(DecodeError::TypeMismatch));
        }
    }
    assert_eq!(decode_with_hash::<String>(&good), Ok("ping".to_string()));
}

#[test]
fn a_foreign_fingerprint_is_a_type_mismatch() {
    let frame = encode_with_hash(&5i32);
    assert_eq!(decode_with_hash::<i32>(&frame), Ok(5));
    assert_eq!(decode_with_hash::<String>(&frame), Err(DecodeError::TypeMismatch));
    assert_eq!(decode_with_hash::<i64>(&frame), Err(DecodeError::TypeMismatch));
    assert_eq!(decode_with_hash::<i16>(&frame), Err(DecodeError::TypeMismatch));
    assert_eq!(decode_with_hash::<i8>(&frame), Err(DecodeError::TypeMismatch));
    assert_eq!(decode_with_hash::<u8>(&frame), Err(DecodeError::TypeMismatch));
    assert_eq!(decode_with_hash::<bool>(&frame), Err(DecodeError::TypeMismatch));
    // the mismatch is reported even where the bytes behind it would not decode
    assert_eq!(
        decode_with_hash::<String>(&frame_of(INT8_FINGERPRINT, &[])),
        Err(DecodeError::TypeMismatch)
    );
    assert_eq!(decode_with_hash::<i32>(&[0u8; 8]), Err(DecodeError::TypeMismatch));
}

#[test]
fn a_frame_without_room_for_a_fingerprint_is_truncated() {
    assert_eq!(decode_with_hash::<i32>(&[]), Err(DecodeError::Truncated));
    assert_eq!(
        decode_with_hash::<String>(&STRING_FINGERPRINT.to_be_bytes()[..7]),
        Err(DecodeError::Truncated)
    );
}

#[test]
fn what_follows_the_fingerprint_is_decoded_as_the_value() {
    assert_eq!(
        decode_with_hash::<i32>(&frame_of(INT32_FINGERPRINT, &[0, 0, 1])),
        Err(DecodeError::Truncated)
    );
    assert_eq!(
        decode_with_hash::<String>(&frame_of(STRING_FINGERPRINT, &[0, 0, 0, 2, 0xff, 0])),
        Err(DecodeError::Malformed)
    );
    assert_eq!(
        decode_with_hash::<bool>(&frame_of(BOOLEAN_FINGERPRINT, &[3])),
        Err(DecodeError::Malformed)
    );
    assert_eq!(decode_with_hash::<i16>(&frame_of(INT16_FINGERPRINT, &[0xff, 0xfe])), Ok(-2));
}

#[test]
fn decode_errors_have_words() {
    assert_eq!(DecodeError::Truncated.message(), "buffer ends before the value does");
    assert_eq!(DecodeError::Malformed.message(), "bytes do not form a value of the type");
    assert_eq!(DecodeError::TypeMismatch.message(), "fingerprint of another type");
}

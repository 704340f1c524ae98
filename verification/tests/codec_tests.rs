use sensirion_hdlc::{decode, encode, HDLCError, SpecialChars};

#[test]
fn encode_start_measumement() {
    let mosi_data = [0x00, 0x00, 0x02, 0x01, 0x03, 0xf9];
    let expected = [0x7e, 0x00, 0x00, 0x02, 0x01, 0x03, 0xf9, 0x7e];
    let encoded = encode(&mosi_data, SpecialChars::default()).unwrap();
    assert_eq!(encoded[0..encoded.len()], expected);
}

#[test]
fn encode_test() {
    let mosi_data = [0x00, 0x01, 0x00, 0xfe];
    let expected = [0x7e, 0x00, 0x01, 0x00, 0xfe, 0x7e];
    let encoded = encode(&mosi_data, SpecialChars::default()).unwrap();
    assert_eq!(encoded[0..encoded.len()], expected);
}

#[test]
fn decode_test() {
    let expected = [0x00, 0x01, 0x00, 0xfe];
    let mosi_data = [0x7e, 0x00, 0x01, 0x00, 0xfe, 0x7e];
    let encoded = decode(&mosi_data, SpecialChars::default()).unwrap();
    assert_eq!(encoded[0..encoded.len()], expected);
}

#[test]
fn encode_escapes_all_special_values() {
    let payload = [0x7e, 0x7d, 0x11, 0x13, 0xaa];
    let expected = [0x7e, 0x7d, 0x5e, 0x7d, 0x5d, 0x7d, 0x31, 0x7d, 0x33, 0xaa, 0x7e];
    let encoded = encode(&payload, SpecialChars::default()).unwrap();
    assert_eq!(encoded[0..encoded.len()], expected);
}

#[test]
fn round_trip_with_escaped_bytes() {
    let payload = [0x7e, 0x7d, 0x11, 0x13, 0xaa, 0x00, 0x7e];
    let chars = SpecialChars::default();
    let encoded = encode(&payload, chars).unwrap();
    let decoded = decode(&encoded[..], chars).unwrap();
    assert_eq!(decoded[0..decoded.len()], payload);
}

#[test]
fn round_trip_with_custom_chars() {
    let payload = [0x01, 0x7e, 0x70, 0x50, 0x00, 0x05, 0x80, 0x09, 0xe2];
    let expected = [0x71, 0x01, 0x7e, 0x70, 0x50, 0x50, 0x00, 0x05, 0x80, 0x09, 0xe2, 0x71];
    let chars = SpecialChars::new(0x71, 0x70, 0x51, 0x50, 0x11, 0x31, 0x13, 0x33).unwrap();
    let encoded = encode(&payload, chars).unwrap();
    assert_eq!(encoded[0..encoded.len()], expected);
    let decoded = decode(&encoded[..], chars).unwrap();
    assert_eq!(decoded[0..decoded.len()], payload);
}

#[test]
fn encode_delimits_and_keeps_fend_out_of_interior() {
    let payload = [0x7e, 0x00, 0x7d, 0x7e, 0x42];
    let encoded = encode(&payload, SpecialChars::default()).unwrap();
    assert_eq!(encoded[0], 0x7e);
    assert_eq!(encoded[encoded.len() - 1], 0x7e);
    for k in 1..encoded.len() - 1 {
        assert_ne!(encoded[k], 0x7e);
    }
}

#[test]
fn encode_length_stays_within_bounds() {
    let chars = SpecialChars::default();
    let plain = [0x01, 0x02, 0x03];
    let encoded = encode(&plain, chars).unwrap();
    assert_eq!(encoded.len(), plain.len() + 2);
    let all_special = [0x7e, 0x7d, 0x11, 0x13];
    let encoded = encode(&all_special, chars).unwrap();
    assert_eq!(encoded.len(), 2 * all_special.len() + 2);
    let mixed = [0x7e, 0x00, 0x13];
    let encoded = encode(&mixed, chars).unwrap();
    assert!(mixed.len() + 2 <= encoded.len() && encoded.len() <= 2 * mixed.len() + 2);
}

#[test]
fn new_rejects_any_duplicate_value() {
    assert_eq!(
        SpecialChars::new(0x71, 0x71, 0x51, 0x50, 0x11, 0x31, 0x13, 0x33),
        Err(HDLCError::DuplicateSpecialChar)
    );
    assert_eq!(
        SpecialChars::new(0x71, 0x70, 0x51, 0x50, 0x11, 0x31, 0x13, 0x11),
        Err(HDLCError::DuplicateSpecialChar)
    );
    assert_eq!(
        SpecialChars::new(0x00, 0x01, 0x02, 0x03, 0x04, 0x05, 0x06, 0x06),
        Err(HDLCError::DuplicateSpecialChar)
    );
}

#[test]
fn new_accepts_distinct_values() {
    let sc = SpecialChars::new(0x00, 0x01, 0x02, 0x03, 0x04, 0x05, 0x06, 0x07).unwrap();
    assert_eq!(sc.fend, 0x00);
    assert_eq!(sc.fesc, 0x01);
    assert_eq!(sc.tfend, 0x02);
    assert_eq!(sc.tfesc, 0x03);
    assert_eq!(sc.ob1, 0x04);
    assert_eq!(sc.tfob1, 0x05);
    assert_eq!(sc.ob2, 0x06);
    assert_eq!(sc.tfob2, 0x07);
}

#[test]
fn encode_accepts_largest_payload() {
    let payload = [0xaa; 260];
    let chars = SpecialChars::default();
    let encoded = encode(&payload, chars).unwrap();
    assert_eq!(encoded.len(), 262);
    let decoded = decode(&encoded[..], chars).unwrap();
    assert_eq!(decoded[0..decoded.len()], payload);
}

#[test]
fn encode_rejects_oversized_payload() {
    let payload = [0xaa; 261];
    assert_eq!(
        encode(&payload, SpecialChars::default()),
        Err(HDLCError::TooMuchData)
    );
}

#[test]
fn decode_rejects_missing_first_fend() {
    let frame = [0x00, 0x01, 0x00, 0xfe, 0x7e];
    assert_eq!(
        decode(&frame, SpecialChars::default()),
        Err(HDLCError::MissingFirstFend)
    );
}

#[test]
fn decode_rejects_invalid_substitution_code() {
    let frame = [0x7e, 0x01, 0x7d, 0xff, 0x7e];
    assert_eq!(
        decode(&frame, SpecialChars::default()),
        Err(HDLCError::MissingTradeChar)
    );
}

#[test]
fn decode_rejects_trailing_escape() {
    let frame = [0x7e, 0x01, 0x02, 0x7d, 0x7e];
    assert_eq!(
        decode(&frame, SpecialChars::default()),
        Err(HDLCError::MissingTradeChar)
    );
}

#[test]
fn decode_rejects_fend_in_interior() {
    let frame = [0x7e, 0x01, 0x7e, 0x02, 0x7e];
    assert_eq!(
        decode(&frame, SpecialChars::default()),
        Err(HDLCError::FendCharInData)
    );
}

#[test]
fn decode_rejects_short_frame() {
    let frame = [0x7e, 0x01, 0x7e];
    assert_eq!(
        decode(&frame, SpecialChars::default()),
        Err(HDLCError::TooFewData)
    );
}

#[test]
fn decode_rejects_oversized_frame() {
    let mut frame = vec![0x01u8; 1001];
    frame[0] = 0x7e;
    frame[1000] = 0x7e;
    assert_eq!(
        decode(&frame, SpecialChars::default()),
        Err(HDLCError::TooMuchData)
    );
}

#[test]
fn decode_rejects_missing_final_fend() {
    let frame = [0x7e, 0x01, 0x02, 0x03];
    assert_eq!(
        decode(&frame, SpecialChars::default()),
        Err(HDLCError::MissingFinalFend)
    );
}

#[test]
fn decode_rejects_oversized_payload() {
    let mut frame = vec![0x01u8; 263];
    frame[0] = 0x7e;
    frame[262] = 0x7e;
    assert_eq!(
        decode(&frame, SpecialChars::default()),
        Err(HDLCError::TooMuchDecodedData)
    );
}

#[test]
fn decode_checks_length_before_delimiters() {
    let frame = [0x00, 0x01, 0x02];
    assert_eq!(
        decode(&frame, SpecialChars::default()),
        Err(HDLCError::TooFewData)
    );
    let mut frame = vec![0x00u8; 1001];
    frame[500] = 0x7e;
    assert_eq!(
        decode(&frame, SpecialChars::default()),
        Err(HDLCError::TooMuchData)
    );
}

use supersilver::protocol::FRAME_CAPACITY;
use supersilver::{encode, Decoder, EncoderState, ProtocolError};

#[test]
fn round_trip_zeros() {
    let state = EncoderState {
        left: 0,
        right: 0,
        left_pressed: false,
        right_pressed: false,
    };
    let mut buf = [0u8; 32];
    let len = encode(&state, &mut buf).unwrap();
    assert!(len > 0);
    assert_eq!(buf[len - 1], 0x00, "COBS frame must end with sentinel");

    let mut decoded = Vec::new();
    let mut decoder = Decoder::new();
    decoder.feed(&buf[..len], &mut decoded).unwrap();
    assert_eq!(decoded, vec![state]);
}

#[test]
fn round_trip_positive() {
    let state = EncoderState {
        left: 42,
        right: 100,
        left_pressed: true,
        right_pressed: false,
    };
    let mut buf = [0u8; 32];
    let len = encode(&state, &mut buf).unwrap();

    let mut decoded = Vec::new();
    let mut decoder = Decoder::new();
    decoder.feed(&buf[..len], &mut decoded).unwrap();
    assert_eq!(decoded, vec![state]);
}

#[test]
fn round_trip_negative() {
    let state = EncoderState {
        left: -99,
        right: -1,
        left_pressed: false,
        right_pressed: true,
    };
    let mut buf = [0u8; 32];
    let len = encode(&state, &mut buf).unwrap();

    let mut decoded = Vec::new();
    let mut decoder = Decoder::new();
    decoder.feed(&buf[..len], &mut decoded).unwrap();
    assert_eq!(decoded, vec![state]);
}

#[test]
fn round_trip_large_values() {
    let state = EncoderState {
        left: i32::MAX,
        right: i32::MIN,
        left_pressed: true,
        right_pressed: true,
    };
    let mut buf = [0u8; 32];
    let len = encode(&state, &mut buf).unwrap();

    let mut decoded = Vec::new();
    let mut decoder = Decoder::new();
    decoder.feed(&buf[..len], &mut decoded).unwrap();
    assert_eq!(decoded, vec![state]);
}

#[test]
fn decode_multiple_messages_in_stream() {
    let s1 = EncoderState {
        left: 1,
        right: 2,
        left_pressed: false,
        right_pressed: false,
    };
    let s2 = EncoderState {
        left: -3,
        right: 4,
        left_pressed: true,
        right_pressed: false,
    };

    let mut wire = [0u8; 64];
    let len1 = encode(&s1, &mut wire).unwrap();
    let len2 = encode(&s2, &mut wire[len1..]).unwrap();

    let mut decoded = Vec::new();
    let mut decoder = Decoder::new();
    decoder.feed(&wire[..len1 + len2], &mut decoded).unwrap();
    assert_eq!(decoded, vec![s1, s2]);
}

#[test]
fn decode_split_across_feeds() {
    let state = EncoderState {
        left: 10,
        right: 20,
        left_pressed: false,
        right_pressed: true,
    };
    let mut buf = [0u8; 32];
    let len = encode(&state, &mut buf).unwrap();
    assert!(len > 2, "need at least a few bytes to split");

    let mid = len / 2;
    let mut decoded = Vec::new();
    let mut decoder = Decoder::new();

    // First half: no message yet
    decoder.feed(&buf[..mid], &mut decoded).unwrap();
    assert!(decoded.is_empty());

    // Second half: message completes
    decoder.feed(&buf[mid..len], &mut decoded).unwrap();
    assert_eq!(decoded, vec![state]);
}

#[test]
fn empty_sentinel_skipped() {
    let mut decoded = Vec::new();
    let mut decoder = Decoder::new();
    // Just sentinels, no data
    decoder.feed(&[0x00, 0x00, 0x00], &mut decoded).unwrap();
    assert!(decoded.is_empty());
}

#[test]
fn encode_zero_state_exact_bytes() {
    let state = EncoderState { left: 0, right: 0, left_pressed: false, right_pressed: false };
    let mut buf = [0xAAu8; 8];
    let len = encode(&state, &mut buf).unwrap();
    assert_eq!(len, 6);
    assert_eq!(&buf[..len], &[0x01, 0x01, 0x01, 0x01, 0x01, 0x00]);
    // The bytes after the frame are left alone.
    assert_eq!(&buf[len..], &[0xAA, 0xAA]);
}

#[test]
fn encode_positive_state_exact_bytes() {
    // left 42 -> zigzag 84 (0x54); right 100 -> zigzag 200 -> varint C8 01.
    let state = EncoderState { left: 42, right: 100, left_pressed: true, right_pressed: false };
    let mut buf = [0u8; 32];
    let len = encode(&state, &mut buf).unwrap();
    assert_eq!(&buf[..len], &[0x05, 0x54, 0xC8, 0x01, 0x01, 0x01, 0x00]);
}

#[test]
fn encode_extreme_state_fits_fourteen_bytes() {
    let state = EncoderState { left: i32::MIN, right: i32::MIN, left_pressed: true, right_pressed: true };
    let mut buf = [0u8; 14];
    let len = encode(&state, &mut buf).unwrap();
    assert_eq!(len, 14);
    assert_eq!(buf[13], 0);
    assert!(buf[..13].iter().all(|b| *b != 0));
}

#[test]
fn encode_into_too_small_buffer_fails() {
    let state = EncoderState { left: 0, right: 0, left_pressed: false, right_pressed: false };
    let mut buf = [0u8; 5];
    let err = encode(&state, &mut buf).unwrap_err();
    assert!(matches!(err, ProtocolError::SerializeBufferFull));
}

#[test]
fn decode_exact_frame_values() {
    let mut decoded = Vec::new();
    let mut decoder = Decoder::new();
    decoder.feed(&[0x05, 0x54, 0xC8, 0x01, 0x01, 0x01, 0x00], &mut decoded).unwrap();
    assert_eq!(
        decoded,
        vec![EncoderState { left: 42, right: 100, left_pressed: true, right_pressed: false }]
    );
}

#[test]
fn overflow_drops_frame_and_recovers() {
    let mut decoded = Vec::new();
    let mut decoder = Decoder::new();
    let junk = [0x11u8; FRAME_CAPACITY + 1];
    let err = decoder.feed(&junk, &mut decoded).unwrap_err();
    assert!(matches!(err, ProtocolError::SerializeBufferFull));
    assert!(decoded.is_empty());

    // The partial frame was dropped: the next frame decodes on its own.
    let state = EncoderState { left: 7, right: -7, left_pressed: true, right_pressed: true };
    let mut buf = [0u8; 32];
    let len = encode(&state, &mut buf).unwrap();
    decoder.feed(&buf[..len], &mut decoded).unwrap();
    assert_eq!(decoded, vec![state]);
}

#[test]
fn capacity_bytes_then_sentinel_is_not_an_overflow() {
    let mut decoded = Vec::new();
    let mut decoder = Decoder::new();
    let junk = [0x11u8; FRAME_CAPACITY];
    decoder.feed(&junk, &mut decoded).unwrap();
    assert!(decoded.is_empty());
}

#[test]
fn bad_cobs_frame_is_an_error() {
    let mut decoded = Vec::new();
    let mut decoder = Decoder::new();
    let err = decoder.feed(&[0x05, 0x00], &mut decoded).unwrap_err();
    assert!(matches!(err, ProtocolError::DeserializeBadEncoding));
    assert!(decoded.is_empty());
}

#[test]
fn bad_bool_is_an_error_after_earlier_messages() {
    let good = EncoderState { left: 1, right: 1, left_pressed: false, right_pressed: false };
    let mut wire = [0u8; 32];
    let len = encode(&good, &mut wire).unwrap();
    // COBS of the serialization 00 00 02 00: a bool byte of 2.
    let bad = [0x01, 0x01, 0x02, 0x02, 0x01, 0x00];
    wire[len..len + bad.len()].copy_from_slice(&bad);

    let mut decoded = Vec::new();
    let mut decoder = Decoder::new();
    let err = decoder.feed(&wire[..len + bad.len()], &mut decoded).unwrap_err();
    assert!(matches!(err, ProtocolError::DeserializeBadBool));
    assert_eq!(decoded, vec![good]);
}

#[test]
fn complete_frame_takes_decoded_fields() {
    let mut decoder = Decoder::new();
    let mut decoded = Vec::new();
    decoder.feed(&[0x03, 0x04], &mut decoded).unwrap();
    decoder.complete_frame(Ok((1, -2, true, false)), &mut decoded).unwrap();
    assert_eq!(
        decoded,
        vec![EncoderState { left: 1, right: -2, left_pressed: true, right_pressed: false }]
    );
    // The frame is done with: a lone sentinel now decodes nothing.
    decoder.feed(&[0x00], &mut decoded).unwrap();
    assert_eq!(decoded.len(), 1);
}

#[test]
fn complete_frame_passes_errors_on() {
    let mut decoder = Decoder::new();
    let mut decoded = Vec::new();
    let err = decoder
        .complete_frame(Err(ProtocolError::DeserializeBadBool), &mut decoded)
        .unwrap_err();
    assert!(matches!(err, ProtocolError::DeserializeBadBool));
    assert!(decoded.is_empty());
}

#[test]
fn overflow_is_serialize_buffer_full_then_zero_frame_decodes() {
    let mut decoded = Vec::new();
    let mut decoder = Decoder::new();
    assert_eq!(
        decoder.feed(&[0x01u8; 65], &mut decoded),
        Err(ProtocolError::SerializeBufferFull)
    );
    assert!(decoded.is_empty());
    decoder.feed(&[0x01, 0x01, 0x01, 0x01, 0x01, 0x00], &mut decoded).unwrap();
    assert_eq!(
        decoded,
        vec![EncoderState { left: 0, right: 0, left_pressed: false, right_pressed: false }]
    );
}

#[test]
fn sixty_four_nonzero_bytes_are_no_overflow() {
    let mut decoded = Vec::new();
    let mut decoder = Decoder::new();
    assert_eq!(decoder.feed(&[0x01u8; 64], &mut decoded), Ok(()));
    assert!(decoded.is_empty());
    // Sixty-four COBS codes of 1 decode to zero bytes; the report read from
    // the first four is the all-zero one.
    assert_eq!(decoder.feed(&[0x00], &mut decoded), Ok(()));
    assert_eq!(
        decoded,
        vec![EncoderState { left: 0, right: 0, left_pressed: false, right_pressed: false }]
    );
}

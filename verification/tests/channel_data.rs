use connlib::channel_data::{decode, encode, DecodeError};

#[test]
fn frame_has_header_in_front_of_payload() {
    let frame = encode(0x4001, b"foobar");

    assert_eq!(frame, vec![0x40, 0x01, 0x00, 0x06, b'f', b'o', b'o', b'b', b'a', b'r']);
}

#[test]
fn decode_returns_channel_and_payload() {
    let frame = encode(0x4abc, b"foobar");

    assert_eq!(decode(&frame), Ok((0x4abc, &b"foobar"[..])));
}

#[test]
fn decode_ignores_padding_behind_payload() {
    let frame = [0x40, 0x00, 0x00, 0x02, 1, 2, 0, 0];

    assert_eq!(decode(&frame), Ok((0x4000, &[1u8, 2][..])));
}

#[test]
fn decode_rejects_short_buffer() {
    assert_eq!(decode(&[0x40, 0x00, 0x00]), Err(DecodeError::MissingHeader));
}

#[test]
fn decode_rejects_missing_payload() {
    assert_eq!(decode(&[0x40, 0x00, 0x00, 0x05, 1, 2]), Err(DecodeError::PayloadTooShort));
}

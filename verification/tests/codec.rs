use chat_core::codec::{decode, decode_payload, encode, CodecError, MSG_SIZE};

#[test]
fn round_trip_simple() {
    let frame = encode("hello").unwrap();
    assert_eq!(frame.len(), MSG_SIZE);
    assert_eq!(&frame[..5], b"hello");
    assert!(frame[5..].iter().all(|&b| b == 0));
    assert_eq!(decode(&frame), "hello");
}

#[test]
fn round_trip_empty() {
    let frame = encode("").unwrap();
    assert_eq!(frame.len(), MSG_SIZE);
    assert!(frame.iter().all(|&b| b == 0));
    assert_eq!(decode(&frame), "");
}

#[test]
fn round_trip_full_frame() {
    let text = "abcdefghijklmnopqrstuvwxyz012345";
    assert_eq!(text.len(), MSG_SIZE);
    let frame = encode(text).unwrap();
    assert_eq!(frame.len(), MSG_SIZE);
    assert_eq!(decode(&frame), text);
}

#[test]
fn round_trip_multibyte() {
    let text = "héllo wörld";
    let frame = encode(text).unwrap();
    assert_eq!(decode(&frame), text);
}

#[test]
fn encode_rejects_oversized_ascii() {
    let text = "abcdefghijklmnopqrstuvwxyz0123456";
    assert_eq!(text.len(), MSG_SIZE + 1);
    assert_eq!(encode(text), Err(CodecError::PayloadTooLarge));
}

#[test]
fn encode_rejects_oversized_multibyte() {
    // 17 two-byte characters: 34 bytes of UTF-8, though only 17 characters.
    let text = "ééééééééééééééééé";
    assert_eq!(text.chars().count(), 17);
    assert_eq!(encode(text), Err(CodecError::PayloadTooLarge));
}

#[test]
fn decode_trims_trailing_spaces() {
    let mut frame = vec![0u8; MSG_SIZE];
    frame[..5].copy_from_slice(b"hi   ");
    assert_eq!(decode(&frame), "hi");
}

#[test]
fn decode_keeps_interior_spaces() {
    let mut frame = vec![0u8; MSG_SIZE];
    frame[..4].copy_from_slice(b"a b ");
    assert_eq!(decode(&frame), "a b");
}

#[test]
fn decode_stops_at_first_zero() {
    let mut frame = vec![0u8; MSG_SIZE];
    frame[..2].copy_from_slice(b"ok");
    frame[3] = b'x';
    assert_eq!(decode(&frame), "ok");
}

#[test]
fn decode_replaces_invalid_utf8() {
    let mut frame = vec![0u8; MSG_SIZE];
    frame[0] = b'a';
    frame[1] = 0xff;
    frame[2] = b'b';
    assert_eq!(decode(&frame), "a\u{fffd}b");
}

#[test]
fn decode_payload_strips_padding_and_spaces() {
    let mut frame = vec![0u8; MSG_SIZE];
    frame[..6].copy_from_slice(b"text  ");
    assert_eq!(decode_payload(&frame), b"text");
}

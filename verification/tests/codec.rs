//! Tests of the message type and the fixed-size frame codec.

use floodnet::Msg;
use floodnet::TryFromArrayToMsgError;
use floodnet::TryFromStringToMsgError;
use floodnet::CAPACITY;

fn sample_id() -> Vec<u8> {
    (1u8..=16).collect()
}

#[test]
fn round_trip_preserves_text_and_id() {
    let text = b"hello world".to_vec();
    let id = sample_id();
    let m = Msg::new(text.clone(), id.clone()).unwrap();
    let frame = m.into_bytes();
    assert_eq!(frame.len(), CAPACITY);
    let back = Msg::try_from_bytes(&frame).unwrap();
    assert_eq!(back.text, text);
    assert_eq!(back.id, id);
}

#[test]
fn round_trip_of_empty_text() {
    let m = Msg::new(Vec::new(), sample_id()).unwrap();
    let frame = m.into_bytes();
    let back = Msg::try_from_bytes(&frame).unwrap();
    assert_eq!(back.text, Vec::<u8>::new());
    assert_eq!(back.id, sample_id());
}

#[test]
fn encode_succeeds_at_largest_text() {
    let text = vec![b'a'; 111];
    let m = Msg::new(text.clone(), sample_id()).unwrap();
    let frame = m.into_bytes();
    assert_eq!(&frame[..111], &text[..]);
    assert_eq!(frame[111], 0);
    assert_eq!(&frame[112..128], &sample_id()[..]);
    let back = Msg::try_from_bytes(&frame).unwrap();
    assert_eq!(back.text, text);
}

#[test]
fn encode_fails_past_largest_text() {
    let text = vec![b'a'; 112];
    let r = Msg::new(text, sample_id());
    assert_eq!(r, Err(TryFromStringToMsgError));
}

#[test]
fn frame_layout_is_exact() {
    let m = Msg::new(b"hello".to_vec(), sample_id()).unwrap();
    let frame = m.into_bytes();
    let mut expected = Vec::new();
    expected.extend_from_slice(b"hello");
    expected.push(0);
    expected.extend_from_slice(&sample_id());
    expected.resize(CAPACITY, 0);
    assert_eq!(frame, expected);
}

#[test]
fn try_from_text_assigns_sixteen_byte_id() {
    let m = Msg::try_from_text(b"hi".to_vec()).unwrap();
    assert_eq!(m.text, b"hi".to_vec());
    assert_eq!(m.id.len(), 16);
}

#[test]
fn try_from_text_rejects_large_text() {
    let r = Msg::try_from_text(vec![b'x'; 112]);
    assert_eq!(r, Err(TryFromStringToMsgError));
}

#[test]
fn decode_without_separator_fails() {
    let frame = vec![7u8; CAPACITY];
    let r = Msg::try_from_bytes(&frame);
    assert_eq!(r.unwrap_err(), TryFromArrayToMsgError::MissingSep);
}

#[test]
fn decode_with_late_separator_has_no_valid_id() {
    // The first zero byte leaves fewer than 16 bytes for the id, so
    // the bytes after the separator form no valid id.
    let mut frame = vec![7u8; CAPACITY];
    frame[120] = 0;
    let r = Msg::try_from_bytes(&frame);
    assert_eq!(r.unwrap_err(), TryFromArrayToMsgError::CorruptUuid);
}

#[test]
fn decode_accepts_separator_at_last_possible_offset() {
    let mut frame = vec![7u8; CAPACITY];
    frame[111] = 0;
    let m = Msg::try_from_bytes(&frame).unwrap();
    assert_eq!(m.text.len(), 111);
    assert_eq!(m.id, vec![7u8; 16]);
}

#[test]
fn decode_never_fails_on_content_bytes() {
    // Content bytes that are not valid UTF-8 still decode: the text is
    // carried as raw bytes and interpreted only on display.
    let mut frame = vec![0u8; CAPACITY];
    frame[0] = 0xFF;
    frame[1] = 0xFE;
    let m = Msg::try_from_bytes(&frame).unwrap();
    assert_eq!(m.text, vec![0xFF, 0xFE]);
    assert_eq!(m.id, vec![0u8; 16]);
}

#[test]
fn zero_byte_in_text_truncates_at_decode() {
    // A zero byte inside the text is indistinguishable from the frame
    // separator: decoding stops at the first zero, so such a message
    // does not survive a round trip intact.
    let m = Msg::new(vec![b'a', 0, b'b'], sample_id()).unwrap();
    let frame = m.into_bytes();
    let back = Msg::try_from_bytes(&frame).unwrap();
    assert_eq!(back.text, vec![b'a']);
}

#[test]
fn messages_compare_by_text_and_id() {
    let a = Msg::new(b"a".to_vec(), sample_id()).unwrap();
    let b = Msg::new(b"a".to_vec(), sample_id()).unwrap();
    let c = Msg::new(b"b".to_vec(), sample_id()).unwrap();
    let d = Msg::new(b"a".to_vec(), vec![9u8; 16]).unwrap();
    assert_eq!(a, b);
    assert_ne!(a, c);
    assert_ne!(a, d);
    assert_eq!(a.clone(), a);
}

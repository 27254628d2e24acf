use bytes::BytesMut;
use garble::message::{decode_frame, encode_frame};

fn buffer(bytes: &[u8]) -> BytesMut {
    BytesMut::from(bytes)
}

#[test]
fn encode_appends_payload_and_terminator() {
    let mut dst = buffer(b"xy");
    encode_frame(b"abc", &mut dst);
    assert_eq!(&dst[..], b"xyabc\0");
}

#[test]
fn encode_empty_payload_is_a_lone_terminator() {
    let mut dst = BytesMut::new();
    encode_frame(b"", &mut dst);
    assert_eq!(&dst[..], b"\0");
}

#[test]
fn decode_takes_frames_in_order() {
    let mut src = buffer(b"ab\0cd\0e");
    let first = decode_frame(&mut src).expect("first frame");
    assert_eq!(&first[..], b"ab");
    assert_eq!(&src[..], b"cd\0e");
    let second = decode_frame(&mut src).expect("second frame");
    assert_eq!(&second[..], b"cd");
    assert_eq!(&src[..], b"e");
    assert!(decode_frame(&mut src).is_none());
    assert_eq!(&src[..], b"e");
}

#[test]
fn decode_empty_frame() {
    let mut src = buffer(b"\0x");
    let frame = decode_frame(&mut src).expect("empty frame");
    assert!(frame.is_empty());
    assert_eq!(&src[..], b"x");
}

#[test]
fn decode_waits_for_terminator() {
    let mut src = buffer(b"partial");
    assert!(decode_frame(&mut src).is_none());
    assert_eq!(&src[..], b"partial");
    src.extend_from_slice(b" packet\0next");
    let frame = decode_frame(&mut src).expect("completed frame");
    assert_eq!(&frame[..], b"partial packet");
    assert_eq!(&src[..], b"next");
}

#[test]
fn decode_of_empty_buffer_is_none() {
    let mut src = BytesMut::new();
    assert!(decode_frame(&mut src).is_none());
    assert!(src.is_empty());
}

#[test]
fn stream_roundtrip_of_json_payloads() {
    let payloads: Vec<Vec<u8>> = vec![
        serde_json::to_vec(&serde_json::Value::String("hello\u{0}world".to_string())).unwrap(),
        b"{\"ConnectWaiting\":null}".to_vec(),
        Vec::new(),
        b"42".to_vec(),
    ];
    let mut wire = BytesMut::new();
    for p in &payloads {
        assert!(!p.contains(&0u8));
        encode_frame(p, &mut wire);
    }
    for p in &payloads {
        let frame = decode_frame(&mut wire).expect("frame");
        assert_eq!(&frame[..], &p[..]);
    }
    assert!(wire.is_empty());
    assert!(decode_frame(&mut wire).is_none());
}

use p2p_chat::frame::{check_stream_header, decode_packet_frame, decode_stream_frame, encode_packet_frame, encode_stream_frame, Decoded, FrameError, MAX_MESSAGE_SIZE};

#[test]
fn stream_frame_has_big_endian_length() {
    let f = encode_stream_frame(b"hello").unwrap();
    assert_eq!(f, vec![0, 0, 0, 5, b'h', b'e', b'l', b'l', b'o']);
}

#[test]
fn stream_frame_roundtrip_with_trailing_bytes() {
    let mut buf = encode_stream_frame(b"abc").unwrap();
    buf.extend_from_slice(&[9, 9]);
    match decode_stream_frame(&buf) {
        Ok(Decoded::Frame { body, consumed }) => {
            assert_eq!(body, b"abc".to_vec());
            assert_eq!(consumed, 7);
        }
        other => panic!("unexpected {:?}", other),
    }
}

#[test]
fn stream_frame_empty_body() {
    let buf = encode_stream_frame(b"").unwrap();
    assert_eq!(buf, vec![0, 0, 0, 0]);
    assert_eq!(decode_stream_frame(&buf), Ok(Decoded::Frame { body: vec![], consumed: 4 }));
}

#[test]
fn stream_frame_incomplete_header_and_body() {
    assert_eq!(decode_stream_frame(&[0, 0, 0]), Ok(Decoded::Incomplete));
    assert_eq!(decode_stream_frame(&[0, 0, 0, 3, 1, 2]), Ok(Decoded::Incomplete));
}

#[test]
fn stream_frame_too_large_is_refused() {
    let big = vec![0u8; MAX_MESSAGE_SIZE + 1];
    assert_eq!(encode_stream_frame(&big), Err(FrameError::TooLarge(MAX_MESSAGE_SIZE + 1)));
    let at_limit = vec![7u8; MAX_MESSAGE_SIZE];
    let framed = encode_stream_frame(&at_limit).unwrap();
    assert_eq!(framed.len(), MAX_MESSAGE_SIZE + 4);
}

#[test]
fn stream_header_over_limit() {
    // 10 MiB + 1 = 0x00A00001
    assert_eq!(check_stream_header(&[0x00, 0xA0, 0x00, 0x01]), Err(FrameError::TooLarge(10 * 1024 * 1024 + 1)));
    assert_eq!(check_stream_header(&[0x00, 0xA0, 0x00, 0x00]), Ok(10 * 1024 * 1024));
    assert_eq!(check_stream_header(&[0, 0, 1, 2]), Ok(258));
    assert!(matches!(decode_stream_frame(&[0xFF, 0xFF, 0xFF, 0xFF]), Err(FrameError::TooLarge(_))));
}

#[test]
fn packet_frame_has_little_endian_length() {
    let f = encode_packet_frame(&[1, 2, 3]);
    assert_eq!(f, vec![3, 0, 0, 0, 1, 2, 3]);
    let body = vec![0u8; 258];
    let g = encode_packet_frame(&body);
    assert_eq!(&g[..4], &[2, 1, 0, 0]);
}

#[test]
fn packet_frame_roundtrip_and_incomplete() {
    let mut buf = encode_packet_frame(b"xyz");
    buf.push(42);
    assert_eq!(decode_packet_frame(&buf), Some((b"xyz".to_vec(), 7)));
    assert_eq!(decode_packet_frame(&buf[..5]), None);
    assert_eq!(decode_packet_frame(&[1, 0]), None);
}

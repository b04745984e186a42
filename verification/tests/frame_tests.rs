use esp_qq_bot::frame::{decode_frame, encode_frame, FrameBuffer, FrameError, MAX_FRAME_LENGTH};

#[test]
fn encode_prefixes_length_including_header() {
    let out = encode_frame(&[0xaa, 0xbb, 0xcc]).unwrap();
    assert_eq!(out, vec![0, 0, 0, 7, 0xaa, 0xbb, 0xcc]);
}

#[test]
fn encode_empty_payload() {
    assert_eq!(encode_frame(&[]).unwrap(), vec![0, 0, 0, 4]);
}

#[test]
fn encode_large_length_is_big_endian() {
    let payload = vec![1u8; 0x0102_03];
    let out = encode_frame(&payload).unwrap();
    assert_eq!(&out[..4], &[0x00, 0x01, 0x02, 0x07]);
    assert_eq!(out.len(), payload.len() + 4);
}

#[test]
fn encode_refuses_too_big_payload() {
    let payload = vec![0u8; MAX_FRAME_LENGTH + 1];
    assert_eq!(encode_frame(&payload), Err(FrameError::FrameTooBig));
}

#[test]
fn encode_accepts_max_payload() {
    let payload = vec![0u8; MAX_FRAME_LENGTH];
    assert!(encode_frame(&payload).is_ok());
}

#[test]
fn decode_roundtrip_with_trailing_bytes() {
    let mut bytes = encode_frame(b"hello").unwrap();
    bytes.extend_from_slice(&[9, 9]);
    let frame = decode_frame(&bytes).unwrap().unwrap();
    assert_eq!(frame.payload, b"hello".to_vec());
    assert_eq!(frame.consumed, 9);
}

#[test]
fn decode_incomplete_header() {
    assert_eq!(decode_frame(&[0, 0, 0]), Ok(None));
    assert_eq!(decode_frame(&[]), Ok(None));
}

#[test]
fn decode_incomplete_body() {
    assert_eq!(decode_frame(&[0, 0, 0, 8, 1, 2, 3]), Ok(None));
}

#[test]
fn decode_every_strict_prefix_is_incomplete() {
    let bytes = encode_frame(&[1, 2, 3, 4, 5]).unwrap();
    for k in 0..bytes.len() {
        assert_eq!(decode_frame(&bytes[..k]), Ok(None));
    }
}

#[test]
fn decode_length_underflow() {
    assert_eq!(decode_frame(&[0, 0, 0, 3, 1, 2]), Err(FrameError::LengthUnderflow));
}

#[test]
fn decode_too_big() {
    assert_eq!(decode_frame(&[0, 0x80, 0, 1]), Err(FrameError::FrameTooBig));
    assert_eq!(decode_frame(&[0xff, 0xff, 0xff, 0xff]), Err(FrameError::FrameTooBig));
}

#[test]
fn decode_header_only_frame() {
    let frame = decode_frame(&[0, 0, 0, 4]).unwrap().unwrap();
    assert!(frame.payload.is_empty());
    assert_eq!(frame.consumed, 4);
}

#[test]
fn max_payload_does_not_decode_back() {
    let payload = vec![0u8; MAX_FRAME_LENGTH];
    let bytes = encode_frame(&payload).unwrap();
    assert_eq!(decode_frame(&bytes), Err(FrameError::FrameTooBig));
}

#[test]
fn buffer_yields_frames_in_order() {
    let mut buf = FrameBuffer::new();
    let mut bytes = encode_frame(b"first").unwrap();
    bytes.extend(encode_frame(b"second").unwrap());
    buf.extend(&bytes[..3]);
    assert_eq!(buf.next_frame(), Ok(None));
    buf.extend(&bytes[3..]);
    assert_eq!(buf.next_frame(), Ok(Some(b"first".to_vec())));
    assert_eq!(buf.next_frame(), Ok(Some(b"second".to_vec())));
    assert_eq!(buf.next_frame(), Ok(None));
    assert_eq!(buf.len(), 0);
}

#[test]
fn buffer_keeps_bytes_on_error() {
    let mut buf = FrameBuffer::new();
    buf.extend(&[0, 0, 0, 1, 7]);
    assert_eq!(buf.next_frame(), Err(FrameError::LengthUnderflow));
    assert_eq!(buf.len(), 5);
}

#[test]
fn later_bytes_do_not_change_a_decoded_error() {
    assert_eq!(decode_frame(&[0, 0, 0, 3]), Err(FrameError::LengthUnderflow));
    assert_eq!(decode_frame(&[0, 0, 0, 3, 0, 0, 0, 9]), Err(FrameError::LengthUnderflow));
}

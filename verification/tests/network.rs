use multiplayer::network::{MessageCodec, MessageStreamError, MAX_FRAME_LENGTH};

#[test]
fn encodes_a_big_endian_length_header() {
    let mut codec = MessageCodec::new();
    let mut dst = vec![9u8];
    assert!(codec.encode_frame(b"hello", &mut dst).is_ok());
    assert_eq!(dst, vec![9, 0, 0, 0, 5, b'h', b'e', b'l', b'l', b'o']);
}

#[test]
fn encodes_an_empty_payload() {
    let mut codec = MessageCodec::new();
    let mut dst = Vec::new();
    assert!(codec.encode_frame(&[], &mut dst).is_ok());
    assert_eq!(dst, vec![0, 0, 0, 0]);
}

#[test]
fn long_lengths_use_all_four_header_bytes() {
    let mut codec = MessageCodec::new();
    let payload = vec![7u8; 0x01_02_03];
    let mut dst = Vec::new();
    assert!(codec.encode_frame(&payload, &mut dst).is_ok());
    assert_eq!(&dst[..4], &[0, 1, 2, 3]);
    assert_eq!(dst.len(), 4 + 0x01_02_03);
}

#[test]
fn frame_roundtrip_leaves_the_following_bytes() {
    let mut codec = MessageCodec::new();
    let mut buf = Vec::new();
    codec.encode_frame(b"abc", &mut buf).unwrap();
    codec.encode_frame(b"de", &mut buf).unwrap();
    buf.push(0);
    let first = codec.decode_frame(&mut buf).unwrap();
    assert_eq!(first, Some(b"abc".to_vec()));
    assert_eq!(buf, vec![0, 0, 0, 2, b'd', b'e', 0]);
    let second = codec.decode_frame(&mut buf).unwrap();
    assert_eq!(second, Some(b"de".to_vec()));
    assert_eq!(buf, vec![0]);
}

#[test]
fn incomplete_frames_wait_for_more_bytes() {
    let mut codec = MessageCodec::new();
    let mut short_header = vec![0u8, 0, 0];
    assert_eq!(codec.decode_frame(&mut short_header).unwrap(), None);
    assert_eq!(short_header, vec![0, 0, 0]);
    let mut short_body = vec![0u8, 0, 0, 3, 1, 2];
    assert_eq!(codec.decode_frame(&mut short_body).unwrap(), None);
    assert_eq!(short_body, vec![0, 0, 0, 3, 1, 2]);
}

#[test]
fn headers_over_the_limit_are_an_io_error() {
    let mut codec = MessageCodec::new();
    let too_long = (MAX_FRAME_LENGTH as u32) + 1;
    let mut buf = too_long.to_be_bytes().to_vec();
    let res = codec.decode_frame(&mut buf);
    assert!(matches!(res, Err(MessageStreamError::Io(_))));
    assert_eq!(buf, too_long.to_be_bytes().to_vec());
}

#[test]
fn the_largest_frame_is_accepted() {
    let mut codec = MessageCodec::new();
    let mut buf = (MAX_FRAME_LENGTH as u32).to_be_bytes().to_vec();
    buf.extend(std::iter::repeat(1u8).take(MAX_FRAME_LENGTH));
    let res = codec.decode_frame(&mut buf).unwrap();
    assert_eq!(res.map(|f| f.len()), Some(MAX_FRAME_LENGTH));
    assert!(buf.is_empty());
}

#[test]
fn payloads_over_the_limit_are_refused() {
    let mut codec = MessageCodec::new();
    let payload = vec![0u8; MAX_FRAME_LENGTH + 1];
    let mut dst = vec![1u8];
    let res = codec.encode_frame(&payload, &mut dst);
    assert!(matches!(res, Err(MessageStreamError::Io(_))));
    assert_eq!(dst, vec![1]);
}

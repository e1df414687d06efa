use streamchat::frame::{
    decode_frame, decode_header, encode_frame, FrameError, HEADER_LEN, MAX_PAYLOAD,
};

#[test]
fn frame_of_small_payload() {
    assert_eq!(encode_frame(&[10, 20, 30]), Ok(vec![0, 3, 10, 20, 30]));
}

#[test]
fn frame_of_300_bytes_has_big_endian_length() {
    let payload = vec![7u8; 300];
    let frame = encode_frame(&payload).unwrap();
    assert_eq!(frame.len(), 302);
    assert_eq!(&frame[..2], &[1, 44]);
    assert_eq!(&frame[2..], &payload[..]);
}

#[test]
fn round_trip_of_empty_payload() {
    let frame = encode_frame(&[]).unwrap();
    assert_eq!(frame, vec![0, 0]);
    assert_eq!(decode_frame(&frame), Ok(Vec::new()));
}

#[test]
fn round_trip_of_longest_payload() {
    let payload: Vec<u8> = (0..MAX_PAYLOAD).map(|i| (i % 251) as u8).collect();
    let frame = encode_frame(&payload).unwrap();
    assert_eq!(frame.len(), HEADER_LEN + 65535);
    assert_eq!(&frame[..2], &[255, 255]);
    assert_eq!(decode_frame(&frame), Ok(payload));
}

#[test]
fn round_trip_of_many_lengths() {
    for len in [1usize, 2, 255, 256, 257, 4096, 65534] {
        let payload: Vec<u8> = (0..len).map(|i| (i * 7 % 256) as u8).collect();
        let frame = encode_frame(&payload).unwrap();
        assert_eq!(decode_frame(&frame), Ok(payload));
    }
}

#[test]
fn payload_longer_than_a_frame_is_refused() {
    let payload = vec![0u8; 65536];
    assert_eq!(encode_frame(&payload), Err(FrameError::PayloadTooLong));
    let larger = vec![0u8; 100_000];
    assert_eq!(encode_frame(&larger), Err(FrameError::PayloadTooLong));
}

#[test]
fn bytes_after_the_frame_are_left_alone() {
    assert_eq!(decode_frame(&[0, 2, 8, 9, 1, 2, 3]), Ok(vec![8, 9]));
}

#[test]
fn short_header_is_a_truncated_header() {
    assert_eq!(decode_frame(&[]), Err(FrameError::HeaderTruncated));
    assert_eq!(decode_frame(&[0]), Err(FrameError::HeaderTruncated));
}

#[test]
fn short_payload_is_a_truncated_payload() {
    assert_eq!(decode_frame(&[0, 3, 1, 2]), Err(FrameError::PayloadTruncated));
    assert_eq!(decode_frame(&[255, 255]), Err(FrameError::PayloadTruncated));
}

#[test]
fn header_gives_the_length() {
    assert_eq!(decode_header(&[0, 0]), Ok(0));
    assert_eq!(decode_header(&[0, 5]), Ok(5));
    assert_eq!(decode_header(&[1, 0]), Ok(256));
    assert_eq!(decode_header(&[255, 255]), Ok(65535));
}

#[test]
fn header_of_wrong_size_is_truncated() {
    assert_eq!(decode_header(&[]), Err(FrameError::HeaderTruncated));
    assert_eq!(decode_header(&[1]), Err(FrameError::HeaderTruncated));
    assert_eq!(decode_header(&[1, 2, 3]), Err(FrameError::HeaderTruncated));
}

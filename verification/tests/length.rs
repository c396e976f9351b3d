use framed_codec::codec::{Decoder, Encoder, Length};

#[test]
fn it_returns_bytes_withouth_length_header() {
    let mut codec = Length::<u64>::new();

    let mut src: Vec<u8> = vec![0, 0, 0, 0, 0, 0, 0, 3u8, 1, 2, 3, 4];
    let item = codec.decode(&mut src).unwrap();

    assert!(item == Some(vec![1u8, 2, 3]));
}

#[test]
fn length_round_trip_u16() {
    let mut codec = Length::<u16>::new();
    let mut buf: Vec<u8> = Vec::new();
    let payload: Vec<u8> = b"some payload".to_vec();
    codec.encode(&payload, &mut buf).unwrap();
    assert_eq!(&buf[0..2], &[0u8, 12]);
    let item = codec.decode(&mut buf).unwrap().unwrap();
    assert_eq!(item, payload);
    assert_eq!(buf.len(), 0);
}

#[test]
fn encode_overflow_u8() {
    let mut codec = Length::<u8>::new();
    let mut dst: Vec<u8> = Vec::new();
    let too_long = vec![7u8; 256];
    assert!(codec.encode(&too_long, &mut dst).is_err());
    assert_eq!(dst.len(), 0);
    let just_fits = vec![7u8; 255];
    assert!(codec.encode(&just_fits, &mut dst).is_ok());
    assert_eq!(dst.len(), 256);
    assert_eq!(dst[0], 255);
}

#[test]
fn header_peek_is_idempotent() {
    let mut codec = Length::<u16>::new();
    let mut buf: Vec<u8> = vec![0, 5, 1, 2];
    for _ in 0..3 {
        assert!(codec.decode(&mut buf).unwrap().is_none());
        assert_eq!(buf, vec![0, 5, 1, 2]);
    }
    buf.extend_from_slice(&[3, 4, 5]);
    let item = codec.decode(&mut buf).unwrap().unwrap();
    assert_eq!(item, vec![1, 2, 3, 4, 5]);
    assert_eq!(buf.len(), 0);
}

#[test]
fn short_header_waits_for_more_bytes() {
    let mut codec = Length::<u32>::new();
    let mut buf: Vec<u8> = vec![0, 0];
    assert!(codec.decode(&mut buf).unwrap().is_none());
    assert_eq!(buf, vec![0, 0]);
}

use framed_codec::codec::{BytesCodec, Decoder, Encoder};
use framed_codec::mem::MemIo;
use framed_codec::resource::{ByteReader, Progress};
use framed_codec::{Error, Framed};

fn next_frame<T: ByteReader, U: Decoder>(
    framed: &mut Framed<T, U>,
) -> Option<Result<U::Item, Error<U::Error>>> {
    loop {
        match framed.poll_next() {
            Progress::Ready(outcome) => return outcome,
            Progress::Pending => continue,
        }
    }
}

#[test]
fn decodes() {
    let buf = [0u8; 32];
    let expected = buf.clone();
    let cur = MemIo::new(buf.to_vec(), false);
    let mut framed = Framed::new(cur, BytesCodec {});

    let read = next_frame(&mut framed).unwrap().unwrap();
    assert_eq!(&read[..], &expected[..]);

    assert!(next_frame(&mut framed).is_none());
}

#[test]
fn bytes_round_trip() {
    let mut codec = BytesCodec {};
    let mut buf: Vec<u8> = Vec::new();
    let payload: Vec<u8> = vec![1, 2, 3, 4, 5];
    codec.encode(&payload, &mut buf).unwrap();
    let item = codec.decode(&mut buf).unwrap().unwrap();
    assert_eq!(item, payload);
    assert_eq!(buf.len(), 0);
}

#[test]
fn bytes_empty_buffer_yields_nothing() {
    let mut codec = BytesCodec {};
    let mut buf: Vec<u8> = Vec::new();
    assert!(codec.decode(&mut buf).unwrap().is_none());
}

use framed_codec::codec::{Decoder, Encoder, Length, Limit, LimitError};
use framed_codec::resource::{ByteReader, IoError, Progress};
use framed_codec::{Error, Framed};

// A readable resource that hands out one predefined chunk per read, so a
// frame can be made to arrive in instalments.
struct ChunkedReader {
    chunks: Vec<Vec<u8>>,
    next: usize,
}

impl ByteReader for ChunkedReader {
    fn poll_read(&mut self, _max: usize) -> Progress<Result<Vec<u8>, IoError>> {
        if self.next < self.chunks.len() {
            let chunk = self.chunks[self.next].clone();
            self.next += 1;
            Progress::Ready(Ok(chunk))
        } else {
            Progress::Ready(Ok(Vec::new()))
        }
    }
}

fn next_frame<T: ByteReader, U: Decoder>(
    framed: &mut Framed<T, U>,
) -> Option<Result<U::Item, Error<U::Error>>> {
    loop {
        match framed.poll_next() {
            Progress::Ready(outcome) => return outcome,
            Progress::Pending => continue,
        }
    }
}

#[test]
fn oversized_frame_recovery() {
    // One-byte length headers, frames capped at 4 bytes.
    let mut codec = Limit::new(Length::<u8>::new(), 4);

    // A frame declaring 10 payload bytes, of which 5 have arrived: 6
    // bytes are buffered when the violation is detected.
    let mut buf: Vec<u8> = vec![10, 97, 98, 99, 100, 101];
    match codec.decode(&mut buf).unwrap_err() {
        LimitError::LimitExceeded(n) => assert_eq!(n, 6),
        other => panic!("expected a limit violation, got {:?}", other),
    }

    // Recovery consumes what is buffered of the oversized payload.
    assert!(codec.decode(&mut buf).unwrap().is_none());
    assert_eq!(buf.len(), 0);

    // The rest of the garbage arrives, followed by a well-formed frame.
    buf.extend_from_slice(&[102, 103, 104, 105, 106, 3, 120, 121, 122]);
    let item = codec.decode(&mut buf).unwrap().unwrap();
    assert_eq!(item, vec![120, 121, 122]);
    assert_eq!(buf.len(), 0);
}

#[test]
fn within_budget_frames_pass_through() {
    let mut codec = Limit::new(Length::<u8>::new(), 16);
    let mut buf: Vec<u8> = Vec::new();
    codec.encode(&b"hi".to_vec(), &mut buf).unwrap();
    assert_eq!(buf, vec![2, b'h', b'i']);
    let item = codec.decode(&mut buf).unwrap().unwrap();
    assert_eq!(item, b"hi".to_vec());
    assert_eq!(buf.len(), 0);
}

#[test]
fn limit_encode_rejects_oversized() {
    let mut codec = Limit::new(Length::<u8>::new(), 4);
    let mut dst: Vec<u8> = Vec::new();
    match codec.encode(&vec![1, 2, 3, 4, 5], &mut dst).unwrap_err() {
        LimitError::LimitExceeded(n) => assert_eq!(n, 6),
        other => panic!("expected a limit violation, got {:?}", other),
    }
    assert_eq!(dst.len(), 0);
    codec.encode(&vec![7, 8], &mut dst).unwrap();
    assert_eq!(dst, vec![2, 7, 8]);
}

#[test]
fn limit_encode_wraps_inner_errors() {
    let mut codec = Limit::new(Length::<u8>::new(), 1024);
    let mut dst: Vec<u8> = Vec::new();
    match codec.encode(&vec![0u8; 300], &mut dst).unwrap_err() {
        LimitError::Inner(_) => {}
        other => panic!("expected the inner overflow error, got {:?}", other),
    }
    assert_eq!(dst.len(), 0);
}

#[test]
fn oversized_frame_recovery_through_transport() {
    // A frame declaring 10 payload bytes against a budget of 4, arriving
    // in two instalments, followed by a well-formed frame.
    let reader = ChunkedReader {
        chunks: vec![
            vec![10, 0xAA, 0xAA, 0xAA, 0xAA, 0xAA],
            vec![0xAA, 0xAA, 0xAA, 0xAA, 0xAA, 3, 1, 2, 3],
        ],
        next: 0,
    };
    let mut framed = Framed::new(reader, Limit::new(Length::<u8>::new(), 4));

    match next_frame(&mut framed) {
        Some(Err(Error::Codec(LimitError::LimitExceeded(n)))) => assert_eq!(n, 6),
        other => panic!("expected a limit violation, got {:?}", other),
    }

    let item = next_frame(&mut framed).unwrap().unwrap();
    assert_eq!(item, vec![1, 2, 3]);

    assert!(next_frame(&mut framed).is_none());
}

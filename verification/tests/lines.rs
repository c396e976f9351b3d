use framed_codec::codec::{Decoder, Lines};
use framed_codec::mem::MemIo;
use framed_codec::resource::{ByteReader, Progress};
use framed_codec::{Error, Framed};

fn next_frame<T: ByteReader, U: Decoder>(
    framed: &mut Framed<T, U>,
) -> Option<Result<U::Item, Error<U::Error>>> {
    loop {
        match framed.poll_next() {
            Progress::Ready(outcome) => return outcome,
            Progress::Pending => continue,
        }
    }
}

#[test]
fn it_works() {
    let buf = "Hello\nWorld\nError".to_owned();
    let cur = MemIo::new(buf.into_bytes(), false);

    let mut framed = Framed::new(cur, Lines {});
    let next = next_frame(&mut framed).unwrap().unwrap();
    assert_eq!(next, "Hello\n");
    let next = next_frame(&mut framed).unwrap().unwrap();
    assert_eq!(next, "World\n");

    assert!(next_frame(&mut framed).unwrap().is_err());
}

#[test]
fn truncated_line_is_an_unexpected_eof() {
    let cur = MemIo::new(b"tail without newline".to_vec(), false);
    let mut framed = Framed::new(cur, Lines {});
    match next_frame(&mut framed) {
        Some(Err(Error::Io(framed_codec::resource::IoError::UnexpectedEof))) => {}
        other => panic!("expected a truncated-stream error, got {:?}", other),
    }
}

#[test]
fn invalid_utf8_line_is_a_codec_error() {
    let cur = MemIo::new(vec![0xFF, 0xFE, b'\n'], false);
    let mut framed = Framed::new(cur, Lines {});
    match next_frame(&mut framed) {
        Some(Err(Error::Codec(_))) => {}
        other => panic!("expected a codec error, got {:?}", other),
    }
}

#[test]
fn partial_line_leaves_buffer_unchanged() {
    let mut codec = Lines {};
    let mut buf = b"no newline yet".to_vec();
    let before = buf.clone();
    assert!(codec.decode(&mut buf).unwrap().is_none());
    assert_eq!(buf, before);
    buf.push(b'\n');
    let line = codec.decode(&mut buf).unwrap().unwrap();
    assert_eq!(line, "no newline yet\n");
    assert_eq!(buf.len(), 0);
}

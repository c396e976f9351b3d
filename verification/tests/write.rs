use framed_codec::codec::{BytesCodec, Encoder, Lines};
use framed_codec::mem::MemIo;
use framed_codec::resource::{ByteWriter, IoError, Progress};
use framed_codec::{Error, Framed};

// A writable resource which is always ready and just consumes the data.
struct AsyncWriteNull {
    // number of poll_write calls
    pub num_poll_write: usize,

    // size of the last poll_write
    pub last_write_size: usize,
}

impl ByteWriter for AsyncWriteNull {
    fn poll_write(&mut self, data: &[u8]) -> Progress<Result<usize, IoError>> {
        self.num_poll_write += 1;
        self.last_write_size = data.len();
        Progress::Ready(Ok(data.len()))
    }

    fn poll_flush(&mut self) -> Progress<Result<(), IoError>> {
        Progress::Ready(Ok(()))
    }

    fn poll_close(&mut self) -> Progress<Result<(), IoError>> {
        Progress::Ready(Ok(()))
    }
}

// The blocking equivalent of sending one frame through a sink: wait for
// room, submit, then flush everything out.
fn send_frame<T: ByteWriter, U: Encoder>(
    framed: &mut Framed<T, U>,
    item: &U::Item,
) -> Result<(), Error<U::Error>> {
    loop {
        match framed.poll_ready() {
            Progress::Ready(Ok(())) => break,
            Progress::Ready(Err(e)) => return Err(Error::Io(e)),
            Progress::Pending => continue,
        }
    }
    framed.start_send(item)?;
    loop {
        match framed.poll_flush() {
            Progress::Ready(Ok(())) => return Ok(()),
            Progress::Ready(Err(e)) => return Err(Error::Io(e)),
            Progress::Pending => continue,
        }
    }
}

#[test]
fn line_write() {
    let curs = MemIo::new(vec![0u8; 16], true);
    let mut framer = Framed::new(curs, Lines {});
    send_frame(&mut framer, &"Hello\n".to_owned()).unwrap();
    send_frame(&mut framer, &"World\n".to_owned()).unwrap();
    let (curs, _) = framer.release();
    assert_eq!(&curs.get_ref()[0..12], b"Hello\nWorld\n");
    assert_eq!(curs.position(), 12);
}

#[test]
fn line_write_to_eof() {
    let buf = [0u8; 16];
    let curs = MemIo::new(buf.to_vec(), false);
    let mut framer = Framed::new(curs, Lines {});
    let _err = send_frame(&mut framer, &"This will fill up the buffer\n".to_owned()).unwrap_err();
    let (curs, _) = framer.release();
    assert_eq!(curs.position(), 16);
    assert_eq!(&curs.get_ref()[0..16], b"This will fill u");
}

#[test]
fn send_high_water_mark() {
    // 999 single-byte items, sent 1 at a time into a sink that always
    // accepts writes.
    let io = AsyncWriteNull {
        num_poll_write: 0,
        last_write_size: 0,
    };

    // expect two sends
    let mut framer = Framed::new(io, BytesCodec {});
    framer.w_high_water_mark = 500;
    let item: Vec<u8> = b"\0".to_vec();
    for _ in 0..999 {
        loop {
            match framer.poll_ready() {
                Progress::Ready(Ok(())) => break,
                Progress::Ready(Err(e)) => panic!("unexpected write error {:?}", e),
                Progress::Pending => continue,
            }
        }
        framer.start_send(&item).unwrap();
    }
    loop {
        match framer.poll_flush() {
            Progress::Ready(Ok(())) => break,
            Progress::Ready(Err(e)) => panic!("unexpected flush error {:?}", e),
            Progress::Pending => continue,
        }
    }
    let (io, _) = framer.release();
    assert_eq!(io.num_poll_write, 2);
    assert_eq!(io.last_write_size, 499);
}

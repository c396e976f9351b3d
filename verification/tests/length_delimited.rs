use framed_codec::codec::{Decoder, Encoder, Length};
use framed_codec::mem::MemIo;
use framed_codec::resource::{ByteReader, ByteWriter, Progress};
use framed_codec::{Error, Framed};

fn next_frame<T: ByteReader, U: Decoder>(
    framed: &mut Framed<T, U>,
) -> Option<Result<U::Item, Error<U::Error>>> {
    loop {
        match framed.poll_next() {
            Progress::Ready(outcome) => return outcome,
            Progress::Pending => continue,
        }
    }
}

fn send_frame<T: ByteWriter, U: Encoder>(
    framed: &mut Framed<T, U>,
    item: &U::Item,
) -> Result<(), Error<U::Error>> {
    loop {
        match framed.poll_ready() {
            Progress::Ready(Ok(())) => break,
            Progress::Ready(Err(e)) => return Err(Error::Io(e)),
            Progress::Pending => continue,
        }
    }
    framed.start_send(item)?;
    loop {
        match framed.poll_flush() {
            Progress::Ready(Ok(())) => return Ok(()),
            Progress::Ready(Err(e)) => return Err(Error::Io(e)),
            Progress::Pending => continue,
        }
    }
}

#[test]
fn same_msgs_are_received_as_were_sent() {
    let cur = MemIo::new(vec![0; 256], true);
    let mut framed = Framed::new(cur, Length::<u64>::new());

    send_frame(&mut framed, &b"msg1".to_vec()).unwrap();
    send_frame(&mut framed, &b"msg2".to_vec()).unwrap();
    send_frame(&mut framed, &b"msg3".to_vec()).unwrap();

    let (mut cur, _) = framed.release();
    cur.rewind();
    let mut framed = Framed::new(cur, Length::<u64>::new());

    let mut msgs: Vec<String> = Vec::new();
    for _ in 0..3 {
        let buf = next_frame(&mut framed).unwrap().unwrap();
        msgs.push(String::from_utf8(buf).unwrap());
    }

    assert!(msgs == vec!["msg1", "msg2", "msg3"]);
}

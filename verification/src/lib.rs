//! A framing layer for byte streams.
//!
//! Codecs turn raw bytes into discrete frames and back; a transport pairs a
//! codec with a readable / writable resource, drives the decode loop over
//! an internal read buffer, and drains an internal write buffer under a
//! backpressure threshold.
use vstd::prelude::*;

pub mod buffer;
pub mod codec;
pub mod mem;
pub mod resource;

use crate::buffer::{append_bytes, drain_front};
use crate::codec::{Decoder, Encoder};
use crate::resource::{ByteReader, ByteWriter, IoError, Progress};

verus! {

/// The uniform error taxonomy of the transport: an error raised by the
/// codec in use, or an error of the underlying byte resource.
#[derive(Debug)]
pub enum Error<C> {
    /// An error which originated in the codec.
    Codec(C),
    /// An error which originated in the underlying resource.
    Io(IoError),
}

/// How many bytes one read from the resource may hand over at most.
pub const INITIAL_CAPACITY: usize = 8 * 1024;

/// A unified frame-stream and frame-sink interface over an underlying
/// byte resource, using a [`Decoder`] / [`Encoder`] codec to parse and
/// serialise frames.
///
/// Incoming bytes gather in the read buffer until the codec completes a
/// frame; outgoing frames gather in the write buffer, which is drained to
/// the resource under the high-water mark. The transport owns resource
/// and codec exclusively until [`Framed::release`] returns them.
pub struct Framed<T, U> {
    /// The underlying byte resource.
    pub inner: T,
    /// The codec used to encode and decode frames.
    pub codec: U,
    /// Outgoing bytes already encoded but not yet accepted by the
    /// resource.
    pub w_buffer: Vec<u8>,
    /// The high-water mark for writes, in bytes.
    ///
    /// The sink side refuses additional frames while the write buffer
    /// holds this many bytes or more, draining to the resource instead.
    /// This applies backpressure to fast senders and bounds buffer
    /// growth. The default is 131072 bytes.
    pub w_high_water_mark: usize,
    /// Incoming bytes not yet consumed by a completed decode.
    pub r_buffer: Vec<u8>,
}

impl<T, U> Framed<T, U> {
    /// Creates a new transport from a byte resource and a codec, with
    /// empty buffers and the default high-water mark.
    pub fn new(inner: T, codec: U) -> (r: Self)
        ensures
            r.inner == inner,
            r.codec == codec,
            r.w_buffer@.len() == 0,
            r.r_buffer@.len() == 0,
            r.w_high_water_mark == 131072,
    {
        Framed {
            inner,
            codec,
            w_buffer: Vec::with_capacity(INITIAL_CAPACITY),
            w_high_water_mark: 131072,
            r_buffer: Vec::with_capacity(INITIAL_CAPACITY),
        }
    }

    /// Releases the resource and the codec for reuse elsewhere; the
    /// transport ceases to exist.
    pub fn release(self) -> (r: (T, U))
        ensures
            r.0 == self.inner,
            r.1 == self.codec,
    {
        let Framed { inner, codec, w_buffer: _, w_high_water_mark: _, r_buffer: _ } = self;
        (inner, codec)
    }

    /// Consumes the transport, returning its underlying resource. Bytes
    /// still buffered are lost, so care should be taken not to corrupt a
    /// stream of frames still being worked with.
    pub fn into_inner(self) -> (r: T)
        ensures
            r == self.inner,
    {
        self.release().0
    }

    /// Returns a mutable reference to the underlying resource. Care
    /// should be taken not to corrupt a stream of frames still being
    /// worked with.
    pub fn inner_mut(&mut self) -> (r: &mut T)
        ensures
            *r == old(self).inner,
            final(self).inner == *final(r),
            final(self).codec == old(self).codec,
            final(self).w_buffer == old(self).w_buffer,
            final(self).w_high_water_mark == old(self).w_high_water_mark,
            final(self).r_buffer == old(self).r_buffer,
    {
        &mut self.inner
    }

    /// Returns a shared reference to the underlying resource.
    pub fn inner_ref(&self) -> (r: &T)
        ensures
            *r == self.inner,
    {
        &self.inner
    }

    /// Returns a reference to the read buffer.
    pub fn read_buffer(&self) -> (r: &Vec<u8>)
        ensures
            r@ == self.r_buffer@,
    {
        &self.r_buffer
    }
}

/// What the end-of-input tail of the decode loop yields, once the
/// resource has signalled that no more bytes are coming: one more
/// ordinary decode covers what is buffered; with bytes still left, the
/// codec's end-of-stream decode has the last word; an item passes out as
/// such, a codec error arrives wrapped as [`Error::Codec`], an empty
/// buffer is the clean end of the stream, and leftovers that complete no
/// frame are the truncated-stream error, an unexpected end-of-file.
pub open spec fn eof_step<U: Decoder>(
    pre_codec: U,
    pre_buf: Seq<u8>,
    post_codec: U,
    post_buf: Seq<u8>,
    r: Progress<Option<Result<U::Item, Error<U::Error>>>>,
) -> bool {
    exists|mid: U, mid_buf: Seq<u8>, ir: Result<Option<U::Item>, U::Error>|
        #[trigger] U::decode_spec(pre_codec, pre_buf, mid, mid_buf, ir) && match ir {
            Ok(Some(item)) => post_codec == mid && post_buf == mid_buf && (r matches
            Progress::Ready(Some(Ok(out))) && out == item),
            Err(e) => post_codec == mid && post_buf == mid_buf && (r matches Progress::Ready(
                Some(Err(Error::Codec(ce))),
            ) && ce == e),
            Ok(None) => {
                if mid_buf.len() == 0 {
                    post_codec == mid && post_buf == mid_buf && r matches Progress::Ready(None)
                } else {
                    exists|mid2: U, mid_buf2: Seq<u8>, ir2: Result<Option<U::Item>, U::Error>|
                        #[trigger] U::decode_eof_spec(mid, mid_buf, mid2, mid_buf2, ir2)
                            && post_codec == mid2 && post_buf == mid_buf2 && match ir2 {
                            Ok(Some(item)) => r matches Progress::Ready(Some(Ok(out))) && out
                                == item,
                            Err(e) => (r matches Progress::Ready(Some(Err(Error::Codec(ce))))
                                && ce == e),
                            Ok(None) => {
                                if mid_buf2.len() == 0 {
                                    r matches Progress::Ready(None)
                                } else {
                                    r matches Progress::Ready(
                                        Some(Err(Error::Io(IoError::UnexpectedEof))),
                                    )
                                }
                            },
                        }
                }
            },
        }
}

impl<T: ByteReader, U: Decoder> Framed<T, U> {
    /// One step of the decode loop: try to decode a frame from the read
    /// buffer; failing that, perform at most one read from the resource.
    ///
    /// When the buffered bytes already decide — the codec produces an
    /// item or fails — the contract pins the result: the item arrives as
    /// `Ready(Some(Ok(item)))`, a codec error wrapped as
    /// `Ready(Some(Err(Error::Codec(..))))`. Only when the codec needs
    /// more bytes does a read decide, and the contract states what holds
    /// of every outcome: `Pending` only ever extends the buffer at the
    /// back (poll again — after a read made progress, or once the
    /// resource can), a read error arrives as `Error::Io`, and a read of
    /// zero bytes marks end-of-input, whose outcome [`eof_step`] pins:
    /// one more ordinary decode, then the codec's end-of-stream decode,
    /// then — bytes buffered but no frame — the truncated-stream error,
    /// never a partial item. `Ready(None)` is the clean end of the
    /// stream, reached only with an empty read buffer.
    pub fn poll_next(&mut self) -> (r: Progress<Option<Result<U::Item, Error<U::Error>>>>)
        requires
            old(self).codec.decoder_inv(),
        ensures
            final(self).codec.decoder_inv(),
            final(self).w_buffer == old(self).w_buffer,
            final(self).w_high_water_mark == old(self).w_high_water_mark,
            r matches Progress::Ready(o) ==> final(self).r_buffer@.is_suffix_of(old(
                self,
            ).r_buffer@),
            r matches Progress::Ready(None) ==> final(self).r_buffer@.len() == 0,
            exists|mid: U, mid_buf: Seq<u8>, ir: Result<Option<U::Item>, U::Error>|
                #[trigger] U::decode_spec(old(self).codec, old(self).r_buffer@, mid, mid_buf, ir)
                    && match ir {
                    Ok(Some(item)) => final(self).codec == mid && final(self).r_buffer@ == mid_buf
                        && (r matches Progress::Ready(Some(Ok(out))) && out == item),
                    Err(e) => final(self).codec == mid && final(self).r_buffer@ == mid_buf && (r
                        matches Progress::Ready(Some(Err(Error::Codec(ce)))) && ce == e),
                    Ok(None) => {
                        ||| (r matches Progress::Pending && final(self).codec == mid
                            && mid_buf.is_prefix_of(final(self).r_buffer@))
                        ||| (r matches Progress::Ready(Some(Err(Error::Io(eio))))
                            && final(self).codec == mid && final(self).r_buffer@ == mid_buf)
                        ||| eof_step(mid, mid_buf, final(self).codec, final(self).r_buffer@, r)
                    },
                },
    {
        let res = self.codec.decode(&mut self.r_buffer);
        let ghost ir = res;
        let ghost mid = self.codec;
        let ghost mid_buf = self.r_buffer@;
        proof {
            assert(U::decode_spec(old(self).codec, old(self).r_buffer@, mid, mid_buf, ir));
        }
        match res {
            Err(e) => Progress::Ready(Some(Err(Error::Codec(e)))),
            Ok(Some(item)) => Progress::Ready(Some(Ok(item))),
            Ok(None) => match self.inner.poll_read(INITIAL_CAPACITY) {
                Progress::Pending => {
                    assert(mid_buf.is_prefix_of(self.r_buffer@)) by {
                        assert(mid_buf =~= self.r_buffer@.subrange(0, mid_buf.len() as int));
                    }
                    Progress::Pending
                },
                Progress::Ready(Err(e)) => Progress::Ready(Some(Err(Error::Io(e)))),
                Progress::Ready(Ok(bytes)) => {
                    if bytes.len() > 0 {
                        append_bytes(&mut self.r_buffer, bytes.as_slice());
                        assert(mid_buf.is_prefix_of(self.r_buffer@)) by {
                            assert(mid_buf =~= self.r_buffer@.subrange(0, mid_buf.len() as int));
                        }
                        Progress::Pending
                    } else {
                        self.finish_eof()
                    }
                },
            },
        }
    }

    /// The end-of-input tail of the decode loop; its outcome is exactly
    /// [`eof_step`] of the codec and buffer it starts from.
    fn finish_eof(&mut self) -> (r: Progress<Option<Result<U::Item, Error<U::Error>>>>)
        requires
            old(self).codec.decoder_inv(),
        ensures
            final(self).codec.decoder_inv(),
            final(self).inner == old(self).inner,
            final(self).w_buffer == old(self).w_buffer,
            final(self).w_high_water_mark == old(self).w_high_water_mark,
            final(self).r_buffer@.is_suffix_of(old(self).r_buffer@),
            r matches Progress::Ready(None) ==> final(self).r_buffer@.len() == 0,
            eof_step(
                old(self).codec,
                old(self).r_buffer@,
                final(self).codec,
                final(self).r_buffer@,
                r,
            ),
    {
        let res = self.codec.decode(&mut self.r_buffer);
        let ghost ir = res;
        let ghost mid = self.codec;
        let ghost mid_buf = self.r_buffer@;
        proof {
            assert(U::decode_spec(old(self).codec, old(self).r_buffer@, mid, mid_buf, ir));
        }
        match res {
            Err(e) => Progress::Ready(Some(Err(Error::Codec(e)))),
            Ok(Some(item)) => Progress::Ready(Some(Ok(item))),
            Ok(None) => {
                if self.r_buffer.len() == 0 {
                    Progress::Ready(None)
                } else {
                    let res2 = self.codec.decode_eof(&mut self.r_buffer);
                    let ghost ir2 = res2;
                    let ghost mid2 = self.codec;
                    let ghost mid_buf2 = self.r_buffer@;
                    proof {
                        assert(U::decode_eof_spec(mid, mid_buf, mid2, mid_buf2, ir2));
                    }
                    match res2 {
                        Err(e) => Progress::Ready(Some(Err(Error::Codec(e)))),
                        Ok(Some(item)) => Progress::Ready(Some(Ok(item))),
                        Ok(None) => {
                            if self.r_buffer.len() == 0 {
                                Progress::Ready(None)
                            } else {
                                Progress::Ready(Some(Err(Error::Io(IoError::UnexpectedEof))))
                            }
                        },
                    }
                }
            },
        }
    }
}

impl<T: ByteWriter, U> Framed<T, U> {
    /// Drains the write buffer to the resource until at most `limit`
    /// bytes remain: bytes are handed to the resource front-to-back, a
    /// write that accepts zero bytes is a fatal broken-resource
    /// condition, and after a drain that changed the buffer one flush is
    /// issued to the resource.
    pub fn poll_flush_until(&mut self, limit: usize) -> (r: Progress<Result<(), IoError>>)
        ensures
            final(self).codec == old(self).codec,
            final(self).r_buffer == old(self).r_buffer,
            final(self).w_high_water_mark == old(self).w_high_water_mark,
            final(self).w_buffer@.is_suffix_of(old(self).w_buffer@),
            r matches Progress::Ready(Ok(p)) ==> final(self).w_buffer@.len() <= limit,
            old(self).w_buffer@.len() <= limit ==> (r matches Progress::Ready(Ok(p))
                && final(self).w_buffer == old(self).w_buffer
                && final(self).inner == old(self).inner),
    {
        let orig_len = self.w_buffer.len();
        while self.w_buffer.len() > limit
            invariant
                self.codec == old(self).codec,
                self.r_buffer == old(self).r_buffer,
                self.w_high_water_mark == old(self).w_high_water_mark,
                self.w_buffer@.is_suffix_of(old(self).w_buffer@),
                old(self).w_buffer@.len() <= limit ==> (self.w_buffer == old(self).w_buffer
                    && self.inner == old(self).inner),
            decreases self.w_buffer@.len(),
        {
            match self.inner.poll_write(self.w_buffer.as_slice()) {
                Progress::Pending => {
                    return Progress::Pending;
                },
                Progress::Ready(Err(e)) => {
                    return Progress::Ready(Err(e));
                },
                Progress::Ready(Ok(num_write)) => {
                    if num_write == 0 {
                        return Progress::Ready(Err(IoError::UnexpectedEof));
                    }
                    let ghost before = self.w_buffer@;
                    drain_front(&mut self.w_buffer, num_write);
                    proof {
                        crate::buffer::lemma_skip_suffix(before, num_write as int);
                        crate::buffer::lemma_suffix_trans(
                            self.w_buffer@,
                            before,
                            old(self).w_buffer@,
                        );
                    }
                },
            }
        }
        if orig_len != self.w_buffer.len() {
            self.inner.poll_flush()
        } else {
            Progress::Ready(Ok(()))
        }
    }

    /// Makes room for one more frame: drains writes until the write
    /// buffer's pending length is strictly below the high-water mark.
    /// Accepting a new frame is allowed only after this reports ready.
    pub fn poll_ready(&mut self) -> (r: Progress<Result<(), IoError>>)
        requires
            old(self).w_high_water_mark >= 1,
        ensures
            final(self).codec == old(self).codec,
            final(self).r_buffer == old(self).r_buffer,
            final(self).w_high_water_mark == old(self).w_high_water_mark,
            final(self).w_buffer@.is_suffix_of(old(self).w_buffer@),
            r matches Progress::Ready(Ok(p)) ==> final(self).w_buffer@.len() < old(
                self,
            ).w_high_water_mark,
            old(self).w_buffer@.len() < old(self).w_high_water_mark ==> (r matches
            Progress::Ready(Ok(p)) && final(self).w_buffer == old(self).w_buffer
                && final(self).inner == old(self).inner),
    {
        let limit = self.w_high_water_mark - 1;
        self.poll_flush_until(limit)
    }

    /// Drains the write buffer completely.
    pub fn poll_flush(&mut self) -> (r: Progress<Result<(), IoError>>)
        ensures
            final(self).codec == old(self).codec,
            final(self).r_buffer == old(self).r_buffer,
            final(self).w_high_water_mark == old(self).w_high_water_mark,
            final(self).w_buffer@.is_suffix_of(old(self).w_buffer@),
            r matches Progress::Ready(Ok(p)) ==> final(self).w_buffer@.len() == 0,
            old(self).w_buffer@.len() == 0 ==> (r matches Progress::Ready(Ok(p))
                && final(self).w_buffer == old(self).w_buffer
                && final(self).inner == old(self).inner),
    {
        self.poll_flush_until(0)
    }

    /// Drains the write buffer completely, then closes the resource: the
    /// close is only ever attempted after the full drain and flush
    /// succeeded, so a successful close leaves an empty write buffer.
    pub fn poll_close(&mut self) -> (r: Progress<Result<(), IoError>>)
        ensures
            final(self).codec == old(self).codec,
            final(self).r_buffer == old(self).r_buffer,
            final(self).w_high_water_mark == old(self).w_high_water_mark,
            final(self).w_buffer@.is_suffix_of(old(self).w_buffer@),
            r matches Progress::Ready(Ok(p)) ==> final(self).w_buffer@.len() == 0,
    {
        match self.poll_flush() {
            Progress::Pending => Progress::Pending,
            Progress::Ready(Err(e)) => Progress::Ready(Err(e)),
            Progress::Ready(Ok(())) => self.inner.poll_close(),
        }
    }
}

impl<T, U: Encoder> Framed<T, U> {
    /// Submits one frame for sending: the codec appends its serialisation
    /// to the write buffer, so "frame accepted" is synchronous with
    /// "bytes queued", never partial. The caller is expected to have seen
    /// [`Framed::poll_ready`] report ready first; this call itself never
    /// refuses a frame for reasons of buffer length.
    pub fn start_send(&mut self, item: &U::Item) -> (r: Result<(), Error<U::Error>>)
        requires
            old(self).codec.encoder_inv(),
        ensures
            final(self).codec.encoder_inv(),
            final(self).inner == old(self).inner,
            final(self).r_buffer == old(self).r_buffer,
            final(self).w_high_water_mark == old(self).w_high_water_mark,
            old(self).w_buffer@.is_prefix_of(final(self).w_buffer@),
            r is Err ==> final(self).w_buffer@ == old(self).w_buffer@,
            exists|post: U, rr: Result<(), U::Error>|
                {
                    &&& #[trigger] U::encode_spec(
                        old(self).codec,
                        *item,
                        old(self).w_buffer@,
                        post,
                        final(self).w_buffer@,
                        rr,
                    )
                    &&& post == final(self).codec
                    &&& ((r matches Ok(p) && rr is Ok) || (r matches Err(Error::Codec(e))
                        && rr matches Err(e2) && e == e2))
                },
    {
        let res = self.codec.encode(item, &mut self.w_buffer);
        let ghost rr = res;
        match res {
            Ok(()) => Ok(()),
            Err(e) => Err(Error::Codec(e)),
        }
    }
}

} // verus!

//! A wrapper codec that bounds the size of decoded and encoded frames and
//! resynchronizes the byte stream after an oversized frame instead of
//! abandoning the connection.
use vstd::prelude::*;

use crate::buffer::{drain_front, lemma_empty_suffix, lemma_skip_suffix, lemma_suffix_trans};
use crate::codec::length::{be_value, LenSkipAhead, Length, OverflowError};
use crate::codec::{Decoder, Encoder, EncoderError};

verus! {

/// Incremental discarding of the bytes of an oversized frame, until the
/// stream is back at a frame boundary.
pub trait SkipAheadHandler: Sized {
    /// What this handler's `continue_skipping` does; each implementation
    /// pins its own exact behaviour here.
    spec fn skip_spec(pre: Self, src: Seq<u8>, r: Result<(usize, Option<Self>), ()>) -> bool;

    /// Reports how many of the currently buffered bytes to discard.
    /// `Ok((amount, Some(next)))` means all `amount` reported bytes are to
    /// be discarded and more discarding remains (`amount` then covers the
    /// whole buffer); `Ok((amount, None))` means resynchronization
    /// completes after `amount` bytes; `Err(())` means the handler cannot
    /// recover at all.
    fn continue_skipping(self, src: &[u8]) -> (r: Result<(usize, Option<Self>), ()>)
        ensures
            r matches Ok(p) ==> p.0 <= src@.len() && (p.1 is Some ==> p.0 == src@.len()),
            Self::skip_spec(self, src@, r),
    ;
}

/// A handler that is always done: nothing to discard, nothing remaining.
impl SkipAheadHandler for () {
    open spec fn skip_spec(pre: Self, src: Seq<u8>, r: Result<(usize, Option<Self>), ()>) -> bool {
        r matches Ok(p) && p.0 == 0 && p.1 is None
    }

    fn continue_skipping(self, src: &[u8]) -> (r: Result<(usize, Option<Self>), ()>) {
        Ok((0, None))
    }
}

/// A decoder that can additionally prepare a skip-ahead recovery once a
/// frame has been judged oversized.
pub trait DecoderWithSkipAhead: Decoder {
    /// The handler driving the recovery.
    type Handler: SkipAheadHandler;

    /// The smallest frame-size limit this decoder can be wrapped with: a
    /// [`Limit`] built with a limit at least this large never asks to
    /// prepare a skip-ahead on a buffer the decoder cannot handle.
    spec fn min_frame_limit() -> int;

    /// Precondition of `prepare_skip_ahead`: the buffers on which the
    /// decoder can read the next frame's header.
    spec fn prepare_req(pre: Self, buf: Seq<u8>) -> bool;

    /// What this decoder's `prepare_skip_ahead` does; each implementation
    /// pins its own exact behaviour here.
    spec fn prepare_spec(
        pre: Self,
        pre_buf: Seq<u8>,
        post: Self,
        post_buf: Seq<u8>,
        h: Self::Handler,
    ) -> bool;

    /// After a decode that produced no item left more than
    /// `threshold >= min_frame_limit()` bytes buffered, preparing a
    /// skip-ahead is allowed.
    proof fn lemma_prepare_after_none(
        pre: Self,
        pre_buf: Seq<u8>,
        post: Self,
        post_buf: Seq<u8>,
        r: Result<Option<Self::Item>, Self::Error>,
        threshold: int,
    )
        requires
            Self::decode_spec(pre, pre_buf, post, post_buf, r),
            r matches Ok(None),
            post_buf.len() > threshold,
            threshold >= Self::min_frame_limit(),
        ensures
            Self::prepare_req(post, post_buf),
    ;

    /// Prepares a recovery from an oversized frame: reads (and consumes)
    /// at most the next frame's header — never its body, which is exactly
    /// the unbounded buffering this recovery exists to prevent — and
    /// returns the handler that will discard the rest.
    fn prepare_skip_ahead(&mut self, src: &mut Vec<u8>) -> (h: Self::Handler)
        requires
            old(self).decoder_inv(),
            Self::prepare_req(*old(self), old(src)@),
        ensures
            final(self).decoder_inv(),
            final(src)@.is_suffix_of(old(src)@),
            Self::prepare_spec(*old(self), old(src)@, *final(self), final(src)@, h),
    ;
}

/// The error type used by [`Limit`].
#[derive(Debug)]
pub enum LimitError<E> {
    /// A frame exceeded the configured budget; the payload is the
    /// buffered length observed when the violation was detected.
    LimitExceeded(usize),
    /// Recovery from an oversized or invalid frame failed; the wrapper
    /// can never decode again.
    Defunct,
    /// An error of the wrapped codec.
    Inner(E),
}

/// A wrapper codec that refuses frames larger than a configured budget,
/// on both the decode and the encode side.
///
/// The limit is not enforced eagerly: the wrapped decoder first gets its
/// chance to produce an item. Only when it produces nothing although the
/// buffer has already grown past the budget is the frame judged oversized;
/// the wrapper then reports the violation once and silently discards the
/// oversized frame's bytes on the following calls, resynchronizing on the
/// next frame boundary.
pub struct Limit<C: DecoderWithSkipAhead> {
    /// The wrapped codec.
    pub inner: C,
    /// The frame-size budget, in bytes.
    pub max_frame_size: usize,
    /// The pending skip-ahead recovery, while one is in progress.
    pub skip_ahead_state: Option<<C as DecoderWithSkipAhead>::Handler>,
    /// Once true, the wrapper is permanently unable to decode.
    pub decoder_defunct: bool,
}

impl<C: DecoderWithSkipAhead> Limit<C> {
    /// Well-formedness: a defunct wrapper holds no pending recovery, the
    /// budget is large enough for the wrapped codec's header, and the
    /// wrapped codec is itself well-formed.
    pub open spec fn wf(&self) -> bool {
        &&& (self.decoder_defunct ==> self.skip_ahead_state is None)
        &&& C::min_frame_limit() <= self.max_frame_size as int
        &&& self.inner.decoder_inv()
    }

    /// Wraps `inner`, bounding frames at `max_frame_size` bytes.
    pub fn new(inner: C, max_frame_size: usize) -> (r: Self)
        requires
            C::min_frame_limit() <= max_frame_size as int,
        ensures
            r.inner == inner,
            r.max_frame_size == max_frame_size,
            r.skip_ahead_state is None,
            !r.decoder_defunct,
            inner.decoder_inv() ==> r.wf(),
    {
        Limit { inner, max_frame_size, skip_ahead_state: None, decoder_defunct: false }
    }
}

/// The outcome of a decode on a wrapper that is, or just became, defunct:
/// the buffer is discarded and the call fails, as will every later one.
pub open spec fn limit_defunct_outcome<C: DecoderWithSkipAhead>(
    pre: Limit<C>,
    post: Limit<C>,
    post_buf: Seq<u8>,
    r: Result<Option<<C as Decoder>::Item>, LimitError<<C as Decoder>::Error>>,
) -> bool {
    &&& post.inner == pre.inner
    &&& post.max_frame_size == pre.max_frame_size
    &&& post.skip_ahead_state is None
    &&& post.decoder_defunct
    &&& post_buf.len() == 0
    &&& r matches Err(LimitError::Defunct)
}

/// One decode step of the wrapper with no recovery pending: the wrapped
/// codec decodes; an item or an error passes through (wrapped), while "no
/// item" with the buffer past the budget judges the frame oversized,
/// prepares the skip-ahead and reports the violation, carrying the
/// buffered length observed when the violation was detected — the length
/// that exceeded the budget.
pub open spec fn limit_normal_step<C: DecoderWithSkipAhead>(
    pre: Limit<C>,
    buf: Seq<u8>,
    post: Limit<C>,
    post_buf: Seq<u8>,
    r: Result<Option<<C as Decoder>::Item>, LimitError<<C as Decoder>::Error>>,
) -> bool {
    exists|mid: C, mid_buf: Seq<u8>, ir: Result<Option<<C as Decoder>::Item>, <C as Decoder>::Error>|
        #[trigger] C::decode_spec(pre.inner, buf, mid, mid_buf, ir) && match ir {
            Ok(opt) => {
                if opt is None && mid_buf.len() > pre.max_frame_size {
                    exists|h: <C as DecoderWithSkipAhead>::Handler|
                        {
                            &&& #[trigger] C::prepare_spec(mid, mid_buf, post.inner, post_buf, h)
                            &&& post.skip_ahead_state == Some(h)
                            &&& !post.decoder_defunct
                            &&& post.max_frame_size == pre.max_frame_size
                            &&& (r matches Err(LimitError::LimitExceeded(n)) && n
                                == mid_buf.len())
                        }
                } else {
                    &&& post.inner == mid
                    &&& post_buf == mid_buf
                    &&& post.skip_ahead_state is None
                    &&& !post.decoder_defunct
                    &&& post.max_frame_size == pre.max_frame_size
                    &&& (r matches Ok(o) && o == opt)
                }
            },
            Err(e) => {
                &&& post.inner == mid
                &&& post_buf == mid_buf
                &&& post.skip_ahead_state is None
                &&& !post.decoder_defunct
                &&& post.max_frame_size == pre.max_frame_size
                &&& (r matches Err(LimitError::Inner(e2)) && e2 == e)
            },
        }
}

impl<C: DecoderWithSkipAhead> Decoder for Limit<C> {
    type Item = <C as Decoder>::Item;

    type Error = LimitError<<C as Decoder>::Error>;

    open spec fn decoder_inv(&self) -> bool {
        self.wf()
    }

    /// The wrapper's state machine, one call per invocation. Defunct: the
    /// buffer is cleared and the call fails, forever. A pending recovery
    /// discards buffered bytes of the oversized frame first: when the
    /// buffer runs out before recovery completes, the call reports "no
    /// item" and waits for more bytes; when the handler gives up, the
    /// wrapper becomes defunct. Otherwise — and after a completed
    /// recovery — one normal step of the wrapped codec runs
    /// ([`limit_normal_step`]).
    open spec fn decode_spec(
        pre: Self,
        pre_buf: Seq<u8>,
        post: Self,
        post_buf: Seq<u8>,
        r: Result<Option<<C as Decoder>::Item>, LimitError<<C as Decoder>::Error>>,
    ) -> bool {
        if pre.decoder_defunct {
            limit_defunct_outcome(pre, post, post_buf, r)
        } else {
            match pre.skip_ahead_state {
                Some(h) => exists|sr: Result<(usize, Option<<C as DecoderWithSkipAhead>::Handler>), ()>|
                    #[trigger] <C as DecoderWithSkipAhead>::Handler::skip_spec(h, pre_buf, sr)
                        && match sr {
                        Ok(p) => {
                            let buf1 = pre_buf.skip(p.0 as int);
                            if p.1 is Some || buf1.len() == 0 {
                                &&& post.inner == pre.inner
                                &&& post.max_frame_size == pre.max_frame_size
                                &&& post.skip_ahead_state == p.1
                                &&& !post.decoder_defunct
                                &&& post_buf == buf1
                                &&& r matches Ok(None)
                            } else {
                                limit_normal_step(pre, buf1, post, post_buf, r)
                            }
                        },
                        Err(()) => limit_defunct_outcome(pre, post, post_buf, r),
                    },
                None => limit_normal_step(pre, pre_buf, post, post_buf, r),
            }
        }
    }

    open spec fn decode_eof_spec(
        pre: Self,
        pre_buf: Seq<u8>,
        post: Self,
        post_buf: Seq<u8>,
        r: Result<Option<<C as Decoder>::Item>, LimitError<<C as Decoder>::Error>>,
    ) -> bool {
        Self::decode_spec(pre, pre_buf, post, post_buf, r)
    }

    fn decode(&mut self, src: &mut Vec<u8>) -> (r: Result<
        Option<<C as Decoder>::Item>,
        LimitError<<C as Decoder>::Error>,
    >) {
        let ghost pre = *self;
        let ghost pre_buf = src@;
        match self.skip_ahead_state.take() {
            None => {},
            Some(sas) => {
                let ghost h0 = sas;
                let skip_result = sas.continue_skipping(src.as_slice());
                let ghost sr = skip_result;
                match skip_result {
                    Ok((amount, cont)) => {
                        let ghost cont_g = cont;
                        self.skip_ahead_state = cont;
                        drain_front(src, amount);
                        proof {
                            lemma_skip_suffix(pre_buf, amount as int);
                        }
                        if src.len() == 0 {
                            proof {
                                assert(<C as DecoderWithSkipAhead>::Handler::skip_spec(
                                    h0,
                                    pre_buf,
                                    sr,
                                ));
                            }
                            return Ok(None);
                        }
                        proof {
                            assert(cont_g is None);
                        }
                    },
                    Err(()) => {
                        self.decoder_defunct = true;
                        src.clear();
                        proof {
                            assert(<C as DecoderWithSkipAhead>::Handler::skip_spec(
                                h0,
                                pre_buf,
                                sr,
                            ));
                            lemma_empty_suffix(pre_buf);
                        }
                        return Err(LimitError::Defunct);
                    },
                }
            },
        }
        if self.decoder_defunct {
            src.clear();
            proof {
                lemma_empty_suffix(pre_buf);
            }
            return Err(LimitError::Defunct);
        }
        let ghost inner0 = self.inner;
        let ghost buf1 = src@;
        let res = self.inner.decode(src);
        let ghost ir = res;
        let ghost mid = self.inner;
        let ghost mid_buf = src@;
        proof {
            lemma_suffix_trans(mid_buf, buf1, pre_buf);
        }
        match res {
            Ok(None) => {
                if src.len() > self.max_frame_size {
                    proof {
                        C::lemma_prepare_after_none(
                            inner0,
                            buf1,
                            mid,
                            mid_buf,
                            ir,
                            self.max_frame_size as int,
                        );
                    }
                    let n = src.len();
                    let h = self.inner.prepare_skip_ahead(src);
                    let ghost hg = h;
                    self.skip_ahead_state = Some(h);
                    proof {
                        lemma_suffix_trans(src@, mid_buf, pre_buf);
                        assert(C::decode_spec(inner0, buf1, mid, mid_buf, ir));
                        assert(C::prepare_spec(mid, mid_buf, self.inner, src@, hg));
                        assert(limit_normal_step(pre, buf1, *self, src@, Err::<
                            Option<<C as Decoder>::Item>,
                            _,
                        >(LimitError::LimitExceeded(n))));
                    }
                    Err(LimitError::LimitExceeded(n))
                } else {
                    proof {
                        assert(C::decode_spec(inner0, buf1, mid, mid_buf, ir));
                    }
                    Ok(None)
                }
            },
            Ok(Some(item)) => {
                proof {
                    assert(C::decode_spec(inner0, buf1, mid, mid_buf, ir));
                }
                Ok(Some(item))
            },
            Err(e) => {
                proof {
                    assert(C::decode_spec(inner0, buf1, mid, mid_buf, ir));
                }
                Err(LimitError::Inner(e))
            },
        }
    }

    fn decode_eof(&mut self, src: &mut Vec<u8>) -> (r: Result<
        Option<<C as Decoder>::Item>,
        LimitError<<C as Decoder>::Error>,
    >) {
        self.decode(src)
    }
}

impl<C: DecoderWithSkipAhead + EncoderError> EncoderError for Limit<C> {
    type Error = LimitError<<C as EncoderError>::Error>;
}

impl<C: DecoderWithSkipAhead + Encoder> Encoder for Limit<C> {
    type Item = <C as Encoder>::Item;

    open spec fn encoder_inv(&self) -> bool {
        self.inner.encoder_inv()
    }

    /// The item is encoded into a temporary, isolated buffer first. If the
    /// serialised frame exceeds the budget, the call fails and not a
    /// single byte reaches the real output; otherwise the whole frame is
    /// appended at once.
    open spec fn encode_spec(
        pre: Self,
        item: <C as Encoder>::Item,
        pre_buf: Seq<u8>,
        post: Self,
        post_buf: Seq<u8>,
        r: Result<(), LimitError<<C as EncoderError>::Error>>,
    ) -> bool {
        exists|mid: C, tmp: Seq<u8>, ir: Result<(), <C as EncoderError>::Error>|
            #[trigger] C::encode_spec(pre.inner, item, Seq::<u8>::empty(), mid, tmp, ir)
                && post.max_frame_size == pre.max_frame_size && post.skip_ahead_state
                == pre.skip_ahead_state && post.decoder_defunct == pre.decoder_defunct
                && post.inner == mid && match ir {
                Ok(()) => {
                    if tmp.len() > pre.max_frame_size {
                        post_buf == pre_buf && (r matches Err(LimitError::LimitExceeded(n)) && n
                            == tmp.len())
                    } else {
                        post_buf == pre_buf + tmp && r is Ok
                    }
                },
                Err(e) => post_buf == pre_buf && (r matches Err(LimitError::Inner(e2)) && e2
                    == e),
            }
    }

    fn encode(&mut self, item: &<C as Encoder>::Item, dst: &mut Vec<u8>) -> (r: Result<
        (),
        LimitError<<C as EncoderError>::Error>,
    >) {
        let mut tmp: Vec<u8> = Vec::new();
        let res = self.inner.encode(item, &mut tmp);
        let ghost ir = res;
        let ghost mid = self.inner;
        let ghost tmp_g = tmp@;
        match res {
            Ok(()) => {
                if tmp.len() > self.max_frame_size {
                    let n = tmp.len();
                    assert(old(dst)@.is_prefix_of(dst@)) by {
                        assert(old(dst)@ =~= dst@.subrange(0, old(dst)@.len() as int));
                    }
                    Err(LimitError::LimitExceeded(n))
                } else {
                    dst.append(&mut tmp);
                    assert(old(dst)@.is_prefix_of(dst@)) by {
                        assert(old(dst)@ =~= dst@.subrange(0, old(dst)@.len() as int));
                    }
                    Ok(())
                }
            },
            Err(e) => {
                assert(old(dst)@.is_prefix_of(dst@)) by {
                    assert(old(dst)@ =~= dst@.subrange(0, old(dst)@.len() as int));
                }
                Err(LimitError::Inner(e))
            },
        }
    }
}

/// Oversized-frame detection with the length codec: a buffer that starts
/// with a header whose announced payload does not fit the budget — the
/// buffered bytes already exceed it while the frame is still incomplete —
/// makes the wrapper report the violation, carrying the buffered length
/// observed when the frame was judged oversized, and start a recovery
/// that owes exactly the announced payload length.
pub proof fn lemma_limit_oversized_detection<L: crate::codec::length::LengthType>(
    pre: Limit<Length<L>>,
    pre_buf: Seq<u8>,
    post: Limit<Length<L>>,
    post_buf: Seq<u8>,
    r: Result<Option<Vec<u8>>, LimitError<OverflowError>>,
)
    requires
        !pre.decoder_defunct,
        pre.skip_ahead_state is None,
        L::width_spec() <= pre_buf.len(),
        be_value(pre_buf.take(L::width_spec())) <= usize::MAX,
        pre_buf.len() < L::width_spec() + be_value(pre_buf.take(L::width_spec())),
        pre.max_frame_size < pre_buf.len(),
        <Limit<Length<L>> as Decoder>::decode_spec(pre, pre_buf, post, post_buf, r),
    ensures
        r matches Err(LimitError::LimitExceeded(n)) && n == pre_buf.len(),
        post.skip_ahead_state matches Some(h) && h.remaining == be_value(
            pre_buf.take(L::width_spec()),
        ),
        post_buf == pre_buf.skip(L::width_spec()),
{
    L::lemma_width();
    let (mid, mid_buf, ir): (Length<L>, Seq<u8>, Result<Option<Vec<u8>>, OverflowError>) = choose|
        mid: Length<L>,
        mid_buf: Seq<u8>,
        ir: Result<Option<Vec<u8>>, OverflowError>,
    |
        #[trigger] <Length<L> as Decoder>::decode_spec(pre.inner, pre_buf, mid, mid_buf, ir)
            && match ir {
            Ok(opt) => {
                if opt is None && mid_buf.len() > pre.max_frame_size {
                    exists|h: LenSkipAhead|
                        {
                            &&& #[trigger] <Length<L> as DecoderWithSkipAhead>::prepare_spec(
                                mid,
                                mid_buf,
                                post.inner,
                                post_buf,
                                h,
                            )
                            &&& post.skip_ahead_state == Some(h)
                            &&& !post.decoder_defunct
                            &&& post.max_frame_size == pre.max_frame_size
                            &&& (r matches Err(LimitError::LimitExceeded(n)) && n
                                == mid_buf.len())
                        }
                } else {
                    &&& post.inner == mid
                    &&& post_buf == mid_buf
                    &&& post.skip_ahead_state is None
                    &&& !post.decoder_defunct
                    &&& post.max_frame_size == pre.max_frame_size
                    &&& (r matches Ok(o) && o == opt)
                }
            },
            Err(e) => {
                &&& post.inner == mid
                &&& post_buf == mid_buf
                &&& post.skip_ahead_state is None
                &&& !post.decoder_defunct
                &&& post.max_frame_size == pre.max_frame_size
                &&& (r matches Err(LimitError::Inner(e2)) && e2 == e)
            },
        };
    // The length decoder is still waiting for the announced payload, so
    // it produced nothing and left the buffer untouched.
    assert(ir matches Ok(None));
    assert(mid_buf == pre_buf);
    let h = choose|h: LenSkipAhead|
        {
            &&& #[trigger] <Length<L> as DecoderWithSkipAhead>::prepare_spec(
                mid,
                mid_buf,
                post.inner,
                post_buf,
                h,
            )
            &&& post.skip_ahead_state == Some(h)
            &&& !post.decoder_defunct
            &&& post.max_frame_size == pre.max_frame_size
            &&& (r matches Err(LimitError::LimitExceeded(n)) && n == mid_buf.len())
        };
    crate::codec::length::lemma_be_value_bound(pre_buf.take(L::width_spec()));
}

} // verus!

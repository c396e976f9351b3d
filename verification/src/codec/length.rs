//! A codec that frames data by prefixing it with its length, big-endian,
//! in a fixed-width unsigned integer header.
use vstd::arithmetic::div_mod::{lemma_breakdown, lemma_mod_division_less_than_divisor};
use vstd::prelude::*;

use crate::buffer::{append_bytes, drain_front, lemma_skip_suffix, split_to};
use crate::codec::limit::{DecoderWithSkipAhead, SkipAheadHandler};
use crate::codec::{Decoder, Encoder, EncoderError};

verus! {

/// `256 ^ w`: the number of values a `w`-byte header can hold.
pub open spec fn pow256(w: int) -> nat
    decreases w,
{
    if w <= 0 {
        1
    } else {
        256 * pow256(w - 1)
    }
}

/// The value of `s` read as a big-endian unsigned integer.
pub open spec fn be_value(s: Seq<u8>) -> nat
    decreases s.len(),
{
    if s.len() == 0 {
        0
    } else {
        (be_value(s.drop_last()) * 256 + s.last()) as nat
    }
}

/// The `w`-byte big-endian representation of `v % 256^w`.
pub open spec fn be_bytes(v: nat, w: int) -> Seq<u8>
    decreases w,
{
    if w <= 0 {
        Seq::empty()
    } else {
        be_bytes(v / 256, w - 1).push((v % 256) as u8)
    }
}

pub proof fn lemma_be_bytes_len(v: nat, w: int)
    requires
        w >= 0,
    ensures
        be_bytes(v, w).len() == w,
    decreases w,
{
    if w > 0 {
        lemma_be_bytes_len(v / 256, w - 1);
    }
}

/// Reading back the big-endian representation of `v` recovers `v % 256^w`.
pub proof fn lemma_be_value_of_be_bytes(v: nat, w: int)
    requires
        w >= 0,
    ensures
        be_value(be_bytes(v, w)) == (v as int % pow256(w) as int) as nat,
    decreases w,
{
    if w == 0 {
        assert(v % 1 == 0) by {
            lemma_mod_division_less_than_divisor(v as int, 1);
        }
    } else {
        let tail = be_bytes(v / 256, w - 1);
        assert(be_bytes(v, w).drop_last() =~= tail);
        lemma_be_bytes_len(v / 256, w - 1);
        lemma_be_value_of_be_bytes(v / 256, w - 1);
        lemma_pow256_pos(w - 1);
        lemma_breakdown(v as int, 256, pow256(w - 1) as int);
    }
}

pub proof fn lemma_pow256_pos(w: int)
    ensures
        pow256(w) >= 1,
    decreases (if w >= 0 { w } else { 0 }),
{
    if w > 0 {
        lemma_pow256_pos(w - 1);
    }
}

/// `pow256` is monotonic in the width.
pub proof fn lemma_pow256_increases(w1: int, w2: int)
    requires
        w1 <= w2,
    ensures
        pow256(w1) <= pow256(w2),
    decreases (if w2 >= 0 { w2 } else { 0 }),
{
    if w2 > 0 && w1 < w2 {
        lemma_pow256_increases(w1, w2 - 1);
    }
}

/// A big-endian value of `n` bytes is below `256^n`.
pub proof fn lemma_be_value_bound(s: Seq<u8>)
    ensures
        be_value(s) < pow256(s.len() as int),
    decreases s.len(),
{
    if s.len() > 0 {
        lemma_be_value_bound(s.drop_last());
    }
}

/// Appends the `w`-byte big-endian representation of `value` to `dst`.
fn push_be(value: u64, w: usize, dst: &mut Vec<u8>)
    ensures
        final(dst)@ == old(dst)@ + be_bytes(value as nat, w as int),
    decreases w,
{
    if w == 0 {
        assert(old(dst)@ + be_bytes(value as nat, 0) =~= old(dst)@);
    } else {
        push_be(value / 256, w - 1, dst);
        dst.push((value % 256) as u8);
    }
}

/// Reads the first `w` bytes of `src` as a big-endian unsigned integer.
fn read_be(src: &[u8], w: usize) -> (n: u64)
    requires
        w <= 8,
        src@.len() >= w,
    ensures
        n as nat == be_value(src@.take(w as int)),
    decreases w,
{
    if w == 0 {
        assert(src@.take(0) =~= Seq::<u8>::empty());
        0
    } else {
        let hi = read_be(src, w - 1);
        proof {
            assert(src@.take(w as int).drop_last() =~= src@.take(w - 1));
            lemma_be_value_bound(src@.take(w - 1));
            lemma_pow256_increases((w - 1) as int, 7);
            assert(pow256(7) == 0x100_0000_0000_0000) by {
                assert(pow256(0) == 1);
                assert(pow256(1) == 256);
                assert(pow256(2) == 0x1_0000);
                assert(pow256(3) == 0x100_0000);
                assert(pow256(4) == 0x1_0000_0000);
                assert(pow256(5) == 0x100_0000_0000);
                assert(pow256(6) == 0x1_0000_0000_0000);
            }
        }
        hi * 256 + (src[w - 1] as u64)
    }
}

/// The error returned when a length does not fit: a payload too long for
/// the header width on encode, or a header value beyond the platform's
/// addressing width on decode.
#[derive(Debug, Clone, Copy, PartialEq, Eq)]
pub struct OverflowError;

/// An unsigned integer type that can serve as a length header. The header
/// occupies exactly `width_spec()` bytes on the wire, big-endian.
pub trait LengthType: Sized {
    /// The number of header bytes.
    spec fn width_spec() -> int;

    /// The width is one of the fixed-width integer sizes.
    proof fn lemma_width()
        ensures
            1 <= Self::width_spec() <= 8,
    ;

    /// The number of header bytes, as a run-time value.
    fn width() -> (n: usize)
        ensures
            n as int == Self::width_spec(),
    ;

    /// Writes `x` into the destination buffer, big-endian, exactly when it
    /// fits the header width; otherwise fails and writes nothing.
    fn encode_len(x: usize, dst: &mut Vec<u8>) -> (r: Result<(), OverflowError>)
        ensures
            r is Ok <==> (x as nat) < pow256(Self::width_spec()),
            r is Ok ==> final(dst)@ == old(dst)@ + be_bytes(x as nat, Self::width_spec()),
            r is Err ==> final(dst)@ == old(dst)@,
    ;

    /// Reads the header value from the front of the buffer without
    /// consuming it.
    fn start_decode(src: &[u8]) -> (n: u64)
        requires
            src@.len() >= Self::width_spec(),
        ensures
            n as nat == be_value(src@.take(Self::width_spec())),
    ;
}

impl LengthType for u8 {
    open spec fn width_spec() -> int {
        1
    }

    proof fn lemma_width() {
    }

    fn width() -> (n: usize) {
        1
    }

    fn encode_len(x: usize, dst: &mut Vec<u8>) -> (r: Result<(), OverflowError>) {
        proof {
            assert(pow256(0) == 1);
            assert(pow256(1) == 256);
        }
        if x > 0xFF {
            Err(OverflowError)
        } else {
            push_be(x as u64, 1, dst);
            Ok(())
        }
    }

    fn start_decode(src: &[u8]) -> (n: u64) {
        read_be(src, 1)
    }
}

impl LengthType for u16 {
    open spec fn width_spec() -> int {
        2
    }

    proof fn lemma_width() {
    }

    fn width() -> (n: usize) {
        2
    }

    fn encode_len(x: usize, dst: &mut Vec<u8>) -> (r: Result<(), OverflowError>) {
        proof {
            assert(pow256(0) == 1);
            assert(pow256(1) == 256);
            assert(pow256(2) == 0x1_0000);
        }
        if x > 0xFFFF {
            Err(OverflowError)
        } else {
            push_be(x as u64, 2, dst);
            Ok(())
        }
    }

    fn start_decode(src: &[u8]) -> (n: u64) {
        read_be(src, 2)
    }
}

impl LengthType for u32 {
    open spec fn width_spec() -> int {
        4
    }

    proof fn lemma_width() {
    }

    fn width() -> (n: usize) {
        4
    }

    fn encode_len(x: usize, dst: &mut Vec<u8>) -> (r: Result<(), OverflowError>) {
        proof {
            assert(pow256(0) == 1);
            assert(pow256(1) == 256);
            assert(pow256(2) == 0x1_0000);
            assert(pow256(3) == 0x100_0000);
            assert(pow256(4) == 0x1_0000_0000);
        }
        if x as u64 > 0xFFFF_FFFF {
            Err(OverflowError)
        } else {
            push_be(x as u64, 4, dst);
            Ok(())
        }
    }

    fn start_decode(src: &[u8]) -> (n: u64) {
        read_be(src, 4)
    }
}

impl LengthType for u64 {
    open spec fn width_spec() -> int {
        8
    }

    proof fn lemma_width() {
    }

    fn width() -> (n: usize) {
        8
    }

    fn encode_len(x: usize, dst: &mut Vec<u8>) -> (r: Result<(), OverflowError>) {
        proof {
            assert(pow256(8) == 0x1_0000_0000_0000_0000) by {
                assert(pow256(0) == 1);
                assert(pow256(1) == 256);
                assert(pow256(2) == 0x1_0000);
                assert(pow256(3) == 0x100_0000);
                assert(pow256(4) == 0x1_0000_0000);
                assert(pow256(5) == 0x100_0000_0000);
                assert(pow256(6) == 0x1_0000_0000_0000);
                assert(pow256(7) == 0x100_0000_0000_0000);
            }
        }
        push_be(x as u64, 8, dst);
        Ok(())
    }

    fn start_decode(src: &[u8]) -> (n: u64) {
        read_be(src, 8)
    }
}

/// A codec sending data prefixed by its length in an `L` header.
#[derive(Debug, Default, PartialEq)]
pub struct Length<L>(pub core::marker::PhantomData<L>);

impl<L> Length<L> {
    /// Creates the codec.
    pub fn new() -> (r: Self) {
        Length(core::marker::PhantomData)
    }
}

/// The encoded form of one frame: the payload length in a `w`-byte
/// big-endian header, then the payload itself.
pub open spec fn length_frame(w: int, payload: Seq<u8>) -> Seq<u8> {
    be_bytes(payload.len(), w) + payload
}

impl<L: LengthType> Decoder for Length<L> {
    type Item = Vec<u8>;

    type Error = OverflowError;

    open spec fn decoder_inv(&self) -> bool {
        true
    }

    /// With fewer buffered bytes than the header needs, or fewer than the
    /// header announces, nothing is consumed and no item is produced; the
    /// buffer is byte-for-byte unchanged, so a later call re-reads the
    /// same header. A header value beyond the platform's addressing width
    /// fails. Otherwise header and payload are consumed and the payload is
    /// the item.
    open spec fn decode_spec(
        pre: Self,
        pre_buf: Seq<u8>,
        post: Self,
        post_buf: Seq<u8>,
        r: Result<Option<Vec<u8>>, OverflowError>,
    ) -> bool {
        let w = L::width_spec();
        let len = be_value(pre_buf.take(w)) as int;
        if pre_buf.len() < w {
            post_buf == pre_buf && r matches Ok(None)
        } else if len > usize::MAX {
            post_buf == pre_buf && r matches Err(OverflowError)
        } else if pre_buf.len() - w >= len {
            post_buf == pre_buf.skip(w + len) && (r matches Ok(Some(v)) && v@ == pre_buf.subrange(
                w,
                w + len,
            ))
        } else {
            post_buf == pre_buf && r matches Ok(None)
        }
    }

    open spec fn decode_eof_spec(
        pre: Self,
        pre_buf: Seq<u8>,
        post: Self,
        post_buf: Seq<u8>,
        r: Result<Option<Vec<u8>>, OverflowError>,
    ) -> bool {
        Self::decode_spec(pre, pre_buf, post, post_buf, r)
    }

    fn decode(&mut self, src: &mut Vec<u8>) -> (r: Result<Option<Vec<u8>>, OverflowError>) {
        let w = L::width();
        if src.len() < w {
            assert(src@.is_suffix_of(old(src)@));
            return Ok(None);
        }
        let len64 = L::start_decode(src.as_slice());
        if len64 > usize::MAX as u64 {
            assert(src@.is_suffix_of(old(src)@));
            return Err(OverflowError);
        }
        let len = len64 as usize;
        if src.len() - w >= len {
            drain_front(src, w);
            let payload = split_to(src, len);
            proof {
                assert(payload@ =~= old(src)@.subrange(w as int, w + len));
                assert(src@ =~= old(src)@.skip(w + len));
                lemma_skip_suffix(old(src)@, w + len);
            }
            Ok(Some(payload))
        } else {
            assert(src@.is_suffix_of(old(src)@));
            Ok(None)
        }
    }

    fn decode_eof(&mut self, src: &mut Vec<u8>) -> (r: Result<Option<Vec<u8>>, OverflowError>) {
        self.decode(src)
    }
}

impl<L: LengthType> EncoderError for Length<L> {
    type Error = OverflowError;
}

impl<L: LengthType> Encoder for Length<L> {
    type Item = Vec<u8>;

    open spec fn encoder_inv(&self) -> bool {
        true
    }

    /// A payload that fits the header width is framed as header plus
    /// payload; one that does not fit fails with overflow, and nothing at
    /// all is written.
    open spec fn encode_spec(
        pre: Self,
        item: Vec<u8>,
        pre_buf: Seq<u8>,
        post: Self,
        post_buf: Seq<u8>,
        r: Result<(), OverflowError>,
    ) -> bool {
        let w = L::width_spec();
        if item@.len() < pow256(w) {
            r is Ok && post_buf == pre_buf + length_frame(w, item@)
        } else {
            r is Err && post_buf == pre_buf
        }
    }

    fn encode(&mut self, item: &Vec<u8>, dst: &mut Vec<u8>) -> (r: Result<(), OverflowError>) {
        match L::encode_len(item.len(), dst) {
            Ok(()) => {
                append_bytes(dst, item.as_slice());
                proof {
                    assert(dst@ =~= old(dst)@ + length_frame(L::width_spec(), item@));
                    assert(old(dst)@.is_prefix_of(dst@)) by {
                        assert(old(dst)@ =~= dst@.subrange(0, old(dst)@.len() as int));
                    }
                }
                Ok(())
            },
            Err(e) => {
                assert(old(dst)@.is_prefix_of(dst@)) by {
                    assert(old(dst)@ =~= dst@.subrange(0, old(dst)@.len() as int));
                }
                Err(e)
            },
        }
    }
}

/// The skip-ahead handler of the length codec: after the oversized frame's
/// header has been read, `remaining` payload bytes are still to be
/// discarded.
#[derive(Debug)]
pub struct LenSkipAhead {
    /// How many more bytes must be discarded before the stream is back at
    /// a frame boundary.
    pub remaining: u64,
}

impl SkipAheadHandler for LenSkipAhead {
    /// Discards `min(remaining, buffered)` bytes: if everything remaining
    /// is buffered, resynchronization completes; otherwise the whole
    /// buffer is discarded and the rest remains. Recovery never fails.
    open spec fn skip_spec(
        pre: Self,
        src: Seq<u8>,
        r: Result<(usize, Option<Self>), ()>,
    ) -> bool {
        if pre.remaining <= src.len() {
            r matches Ok(p) && p.0 == pre.remaining && p.1 is None
        } else {
            r matches Ok(p) && p.0 == src.len() && (p.1 matches Some(h) && h.remaining
                == pre.remaining - src.len())
        }
    }

    fn continue_skipping(self, src: &[u8]) -> (r: Result<(usize, Option<Self>), ()>) {
        if self.remaining <= src.len() as u64 {
            Ok((self.remaining as usize, None))
        } else {
            Ok(
                (
                    src.len(),
                    Some(LenSkipAhead { remaining: self.remaining - src.len() as u64 }),
                ),
            )
        }
    }
}

impl<L: LengthType> DecoderWithSkipAhead for Length<L> {
    type Handler = LenSkipAhead;

    open spec fn min_frame_limit() -> int {
        L::width_spec()
    }

    open spec fn prepare_req(pre: Self, buf: Seq<u8>) -> bool {
        buf.len() > L::width_spec()
    }

    /// The header of the frame to be skipped is read and consumed at once;
    /// the handler starts out owing exactly the announced payload length.
    open spec fn prepare_spec(
        pre: Self,
        pre_buf: Seq<u8>,
        post: Self,
        post_buf: Seq<u8>,
        h: LenSkipAhead,
    ) -> bool {
        let w = L::width_spec();
        post_buf == pre_buf.skip(w) && h.remaining == be_value(pre_buf.take(w))
    }

    proof fn lemma_prepare_after_none(
        pre: Self,
        pre_buf: Seq<u8>,
        post: Self,
        post_buf: Seq<u8>,
        r: Result<Option<Vec<u8>>, OverflowError>,
        threshold: int,
    ) {
    }

    fn prepare_skip_ahead(&mut self, src: &mut Vec<u8>) -> (h: LenSkipAhead) {
        let w = L::width();
        let len = L::start_decode(src.as_slice());
        drain_front(src, w);
        proof {
            lemma_skip_suffix(old(src)@, w as int);
            lemma_be_value_bound(old(src)@.take(w as int));
        }
        LenSkipAhead { remaining: len }
    }
}

/// Decoding a well-formed frame: a buffer that starts with one encoded
/// frame yields exactly that frame's payload and leaves exactly the bytes
/// after it.
pub proof fn lemma_length_frame_decode<L: LengthType>(
    c1: Length<L>,
    c2: Length<L>,
    payload: Seq<u8>,
    rest: Seq<u8>,
    post_buf: Seq<u8>,
    r: Result<Option<Vec<u8>>, OverflowError>,
)
    requires
        payload.len() < pow256(L::width_spec()),
        payload.len() <= usize::MAX,
        <Length<L> as Decoder>::decode_spec(
            c1,
            length_frame(L::width_spec(), payload) + rest,
            c2,
            post_buf,
            r,
        ),
    ensures
        r matches Ok(Some(v)) && v@ == payload,
        post_buf == rest,
{
    let w = L::width_spec();
    L::lemma_width();
    lemma_be_bytes_len(payload.len(), w);
    let whole = length_frame(w, payload) + rest;
    assert(whole.take(w) =~= be_bytes(payload.len(), w));
    lemma_be_value_of_be_bytes(payload.len(), w);
    lemma_pow256_pos(w);
    vstd::arithmetic::div_mod::lemma_small_mod(payload.len(), pow256(w));
    assert(be_value(whole.take(w)) == payload.len());
    assert(whole.subrange(w, w + payload.len() as int) =~= payload);
    assert(whole.skip(w + payload.len() as int) =~= rest);
}

/// Round trip for the length codec: any payload that fits the header
/// width, once framed, decodes back as the same single item, leaving no
/// undecoded bytes behind.
pub proof fn lemma_length_round_trip<L: LengthType>(
    c1: Length<L>,
    c2: Length<L>,
    payload: Seq<u8>,
    post_buf: Seq<u8>,
    r: Result<Option<Vec<u8>>, OverflowError>,
)
    requires
        payload.len() < pow256(L::width_spec()),
        payload.len() <= usize::MAX,
        <Length<L> as Decoder>::decode_spec(
            c1,
            length_frame(L::width_spec(), payload),
            c2,
            post_buf,
            r,
        ),
    ensures
        r matches Ok(Some(v)) && v@ == payload,
        post_buf.len() == 0,
{
    assert(length_frame(L::width_spec(), payload) =~= length_frame(L::width_spec(), payload)
        + Seq::<u8>::empty());
    lemma_length_frame_decode(c1, c2, payload, Seq::<u8>::empty(), post_buf, r);
}

/// Idempotence of the header peek: while the buffer holds the whole
/// header but not yet the whole payload it announces, a decode returns no
/// item and leaves the buffer byte-for-byte unchanged — so every repeated
/// decode of that buffer does exactly the same, without consuming the
/// header.
pub proof fn lemma_length_header_peek_idempotent<L: LengthType>(
    c1: Length<L>,
    c2: Length<L>,
    buf: Seq<u8>,
    post_buf: Seq<u8>,
    r: Result<Option<Vec<u8>>, OverflowError>,
)
    requires
        L::width_spec() <= buf.len(),
        be_value(buf.take(L::width_spec())) <= usize::MAX,
        buf.len() < L::width_spec() + be_value(buf.take(L::width_spec())),
        <Length<L> as Decoder>::decode_spec(c1, buf, c2, post_buf, r),
    ensures
        r matches Ok(None),
        post_buf == buf,
{
}

/// Partial-frame stability: any strict prefix of an encoded frame decodes
/// to nothing and leaves the buffer byte-for-byte unchanged; once the
/// remaining bytes arrive, the same frame completes (see
/// [`lemma_length_frame_decode`]).
pub proof fn lemma_length_partial_frame<L: LengthType>(
    c1: Length<L>,
    c2: Length<L>,
    payload: Seq<u8>,
    cut: int,
    post_buf: Seq<u8>,
    r: Result<Option<Vec<u8>>, OverflowError>,
)
    requires
        payload.len() < pow256(L::width_spec()),
        payload.len() <= usize::MAX,
        0 <= cut < length_frame(L::width_spec(), payload).len(),
        <Length<L> as Decoder>::decode_spec(
            c1,
            length_frame(L::width_spec(), payload).take(cut),
            c2,
            post_buf,
            r,
        ),
    ensures
        r matches Ok(None),
        post_buf == length_frame(L::width_spec(), payload).take(cut),
{
    let w = L::width_spec();
    L::lemma_width();
    lemma_be_bytes_len(payload.len(), w);
    let frame = length_frame(w, payload);
    let pre = frame.take(cut);
    if cut >= w {
        assert(pre.take(w) =~= be_bytes(payload.len(), w));
        lemma_be_value_of_be_bytes(payload.len(), w);
        lemma_pow256_pos(w);
        vstd::arithmetic::div_mod::lemma_small_mod(payload.len(), pow256(w));
        assert(be_value(pre.take(w)) == payload.len());
        assert(pre.len() - w < payload.len());
    }
}

/// Overflow on encode: a payload too long for the header width fails with
/// an overflow error, and not a single byte — neither header nor payload —
/// is written.
pub proof fn lemma_length_encode_overflow<L: LengthType>(
    c1: Length<L>,
    c2: Length<L>,
    item: Vec<u8>,
    pre_buf: Seq<u8>,
    post_buf: Seq<u8>,
    r: Result<(), OverflowError>,
)
    requires
        item@.len() >= pow256(L::width_spec()),
        <Length<L> as Encoder>::encode_spec(c1, item, pre_buf, c2, post_buf, r),
    ensures
        r is Err,
        post_buf == pre_buf,
{
}

} // verus!

//! The codec contract: how a message format plugs into the framing layer.
//!
//! A decoder turns the front of a byte buffer into at most one item per
//! call; an encoder appends the serialisation of one item to a buffer.
//! Both sides carry two layers of specification:
//!
//! * a universal buffer-mutation law — a decode call only ever removes
//!   bytes from the front of the buffer, an encode call only ever appends,
//!   and a failed encode leaves the buffer byte-for-byte unchanged;
//! * a per-implementation relation (`decode_spec`, `decode_eof_spec`,
//!   `encode_spec`) in which each concrete codec states exactly what it
//!   parses and produces.
use vstd::prelude::*;

pub mod bytes;
pub mod cbor;
pub mod json;
pub mod length;
pub mod limit;
pub mod lines;

pub use bytes::BytesCodec;
pub use cbor::Cbor;
pub use json::Json;
pub use length::{LenSkipAhead, Length, LengthType, OverflowError};
pub use limit::{DecoderWithSkipAhead, Limit, LimitError, SkipAheadHandler};
pub use lines::Lines;

verus! {

/// The error type of codec operations that cannot fail: the contracts of
/// such codecs rule every value of it out, so none is ever produced.
#[derive(Debug, Clone, Copy, PartialEq, Eq)]
pub struct NoError;

/// Outcome of one attempt to parse a structured value from the front of a
/// buffer: a complete value, too few bytes for one, or malformed data.
pub enum ParseStep<V, E> {
    /// A complete value was parsed.
    Item(V),
    /// The buffered bytes end before the value does; more are needed.
    Incomplete,
    /// The buffered bytes are malformed.
    Failed(E),
}

/// The kind of a parse outcome, with any parsed value or error left out:
/// what the named results of the structured-value parsers range over.
#[derive(Debug, Clone, Copy, PartialEq, Eq)]
pub enum ParseKind {
    /// A complete value.
    Item,
    /// Too few bytes for one.
    Incomplete,
    /// Malformed data.
    Failed,
}

/// Decoding of frames from a byte buffer.
pub trait Decoder: Sized {
    /// The type of items returned by `decode`.
    type Item;

    /// The type of decoding errors.
    type Error;

    /// Well-formedness of the decoder's own state. Callers establish it
    /// once (constructors of the codecs here provide it) and every decode
    /// call preserves it. Stateless codecs simply define it as `true`.
    spec fn decoder_inv(&self) -> bool;

    /// What this decoder's `decode` does: a relation between the codec and
    /// buffer before the call, the codec and buffer after it, and the
    /// result. Each implementation pins its own exact behaviour here.
    spec fn decode_spec(
        pre: Self,
        pre_buf: Seq<u8>,
        post: Self,
        post_buf: Seq<u8>,
        r: Result<Option<Self::Item>, Self::Error>,
    ) -> bool;

    /// What this decoder's `decode_eof` does, in the same shape as
    /// [`Decoder::decode_spec`].
    spec fn decode_eof_spec(
        pre: Self,
        pre_buf: Seq<u8>,
        post: Self,
        post_buf: Seq<u8>,
        r: Result<Option<Self::Item>, Self::Error>,
    ) -> bool;

    /// Decodes at most one item from the front of `src`. Returns
    /// `Ok(Some(item))` after removing exactly the consumed bytes,
    /// `Ok(None)` when more bytes are needed, and `Err` on malformed data.
    /// Whatever happens, the buffer left behind is a suffix of the buffer
    /// handed in: bytes are only ever consumed from the front.
    fn decode(&mut self, src: &mut Vec<u8>) -> (r: Result<Option<Self::Item>, Self::Error>)
        requires
            old(self).decoder_inv(),
        ensures
            final(self).decoder_inv(),
            final(src)@.is_suffix_of(old(src)@),
            Self::decode_spec(*old(self), old(src)@, *final(self), final(src)@, r),
    ;

    /// One last decode attempt after the byte stream has ended, for codecs
    /// that treat "no trailing delimiter" as a valid final frame. Most
    /// codecs make this identical to `decode`.
    fn decode_eof(&mut self, src: &mut Vec<u8>) -> (r: Result<Option<Self::Item>, Self::Error>)
        requires
            old(self).decoder_inv(),
        ensures
            final(self).decoder_inv(),
            final(src)@.is_suffix_of(old(src)@),
            Self::decode_eof_spec(*old(self), old(src)@, *final(self), final(src)@, r),
    ;
}

/// The error type of an encoder, split out so that transports can speak
/// about encoder errors without fixing the item type.
pub trait EncoderError {
    /// The type of encoding errors.
    type Error;
}

/// Encoding of items into a byte buffer.
pub trait Encoder: EncoderError + Sized {
    /// The type of items consumed by `encode`.
    type Item;

    /// Well-formedness of the encoder's own state, preserved by every
    /// encode call. Stateless codecs define it as `true`.
    spec fn encoder_inv(&self) -> bool;

    /// What this encoder's `encode` does; each implementation pins its own
    /// exact behaviour here.
    spec fn encode_spec(
        pre: Self,
        item: Self::Item,
        pre_buf: Seq<u8>,
        post: Self,
        post_buf: Seq<u8>,
        r: Result<(), Self::Error>,
    ) -> bool;

    /// Appends the serialisation of `item` to `dst`. Bytes already in the
    /// buffer are never touched, and a failed encode appends nothing at
    /// all.
    fn encode(&mut self, item: &Self::Item, dst: &mut Vec<u8>) -> (r: Result<(), Self::Error>)
        requires
            old(self).encoder_inv(),
        ensures
            final(self).encoder_inv(),
            old(dst)@.is_prefix_of(final(dst)@),
            r is Err ==> final(dst)@ == old(dst)@,
            Self::encode_spec(*old(self), *item, old(dst)@, *final(self), final(dst)@, r),
    ;
}

} // verus!

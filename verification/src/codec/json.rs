//! A codec for JSON values, parsed and serialised by `serde_json`.
//!
//! What a JSON document means is `serde_json`'s business and is not
//! modelled here; what this codec guarantees — and what the framing layer
//! depends on — is its buffer discipline: a decode that produces no item
//! leaves the buffer byte-for-byte untouched, one that produces an item
//! (or fails on malformed data) consumes exactly what the parser read
//! from the front, and encoding appends the serialised value or, on
//! failure, nothing at all.
use vstd::prelude::*;

use crate::buffer::{append_bytes, drain_front, lemma_skip_suffix};
use crate::codec::{Decoder, Encoder, EncoderError, ParseKind, ParseStep};

verus! {

#[verifier::external_type_specification]
#[verifier::external_body]
pub struct ExJsonValue(serde_json::Value);

/// The error returned when the buffered bytes are malformed, or a value
/// cannot be serialised. The underlying `serde_json` error is dropped at the
/// trusted boundary so that the library's own types carry no outside
/// error.
#[derive(Debug, Clone, Copy, PartialEq, Eq)]
pub struct JsonError;

/// The number of bytes `serde_json`'s streaming parser reads from the front
/// of this buffer in one attempt; a function of the bytes alone.
pub uninterp spec fn json_consumed(buf: Seq<u8>) -> int;

/// Whether this buffer starts with a complete JSON value, stops before
/// one ends, or is malformed; a function of the bytes alone.
pub uninterp spec fn json_step_kind(buf: Seq<u8>) -> ParseKind;

/// Relies on `serde_json`'s streaming deserializer: it parses the first
/// JSON value at the front of `buf` and reports how many bytes it
/// consumed, never more than the buffer holds; an error classified as
/// end-of-file means the buffered bytes end before the value does. What
/// it reads and decides is a function of the buffer alone, named by
/// [`json_consumed`] and [`json_step_kind`].
#[verifier::external_body]
fn json_parse_front(buf: &[u8]) -> (r: (usize, ParseStep<serde_json::Value, JsonError>))
    ensures
        r.0 <= buf@.len(),
        r.0 == json_consumed(buf@),
        (r.1 is Item) <==> (json_step_kind(buf@) is Item),
        (r.1 is Incomplete) <==> (json_step_kind(buf@) is Incomplete),
        (r.1 is Failed) <==> (json_step_kind(buf@) is Failed),
{
    let de = serde_json::Deserializer::from_slice(buf);
    let mut iter = de.into_iter::<serde_json::Value>();
    let step = match iter.next() {
        Some(Ok(v)) => ParseStep::Item(v),
        Some(Err(e)) => {
            if e.is_eof() {
                ParseStep::Incomplete
            } else {
                ParseStep::Failed(JsonError)
            }
        },
        None => ParseStep::Incomplete,
    };
    (iter.byte_offset(), step)
}

/// Relies on `serde_json::to_vec`: it serialises one JSON value.
#[verifier::external_body]
fn json_to_bytes(value: &serde_json::Value) -> (r: Result<Vec<u8>, JsonError>) {
    match serde_json::to_vec(value) {
        Ok(v) => Ok(v),
        Err(_) => Err(JsonError),
    }
}

/// A codec for JSON values.
#[derive(Clone, Debug, Default, PartialEq)]
pub struct Json;

impl Json {
    /// Creates the codec.
    pub fn new() -> (r: Self) {
        Json
    }
}

impl Decoder for Json {
    type Item = serde_json::Value;

    type Error = JsonError;

    open spec fn decoder_inv(&self) -> bool {
        true
    }

    /// What a buffer parses to is decided by `serde_json` and stays
    /// unmodelled, but which of the three outcomes occurs, and how many
    /// bytes the parser reads, are functions of the buffer alone
    /// ([`json_step_kind`], [`json_consumed`]): too few bytes yield no item
    /// and leave the buffer byte-for-byte untouched; a complete value is
    /// the item and exactly the bytes read are consumed; malformed data
    /// fails, also consuming what was read.
    open spec fn decode_spec(
        pre: Self,
        pre_buf: Seq<u8>,
        post: Self,
        post_buf: Seq<u8>,
        r: Result<Option<serde_json::Value>, JsonError>,
    ) -> bool {
        match json_step_kind(pre_buf) {
            ParseKind::Incomplete => post_buf == pre_buf && r matches Ok(None),
            ParseKind::Item => post_buf == pre_buf.skip(json_consumed(pre_buf)) && r matches Ok(
                Some(v),
            ),
            ParseKind::Failed => post_buf == pre_buf.skip(json_consumed(pre_buf)) && r is Err,
        }
    }

    open spec fn decode_eof_spec(
        pre: Self,
        pre_buf: Seq<u8>,
        post: Self,
        post_buf: Seq<u8>,
        r: Result<Option<serde_json::Value>, JsonError>,
    ) -> bool {
        Self::decode_spec(pre, pre_buf, post, post_buf, r)
    }

    fn decode(&mut self, src: &mut Vec<u8>) -> (r: Result<
        Option<serde_json::Value>,
        JsonError,
    >) {
        let (consumed, step) = json_parse_front(src.as_slice());
        match step {
            ParseStep::Item(v) => {
                drain_front(src, consumed);
                proof {
                    lemma_skip_suffix(old(src)@, consumed as int);
                }
                Ok(Some(v))
            },
            ParseStep::Incomplete => {
                assert(src@.is_suffix_of(old(src)@));
                Ok(None)
            },
            ParseStep::Failed(e) => {
                drain_front(src, consumed);
                proof {
                    lemma_skip_suffix(old(src)@, consumed as int);
                }
                Err(e)
            },
        }
    }

    fn decode_eof(&mut self, src: &mut Vec<u8>) -> (r: Result<
        Option<serde_json::Value>,
        JsonError,
    >) {
        self.decode(src)
    }
}

impl EncoderError for Json {
    type Error = JsonError;
}

impl Encoder for Json {
    type Item = serde_json::Value;

    open spec fn encoder_inv(&self) -> bool {
        true
    }

    /// The serialised bytes are decided by `serde_json` and not modelled
    /// here; the universal buffer law of [`Encoder::encode`] still holds.
    open spec fn encode_spec(
        pre: Self,
        item: serde_json::Value,
        pre_buf: Seq<u8>,
        post: Self,
        post_buf: Seq<u8>,
        r: Result<(), JsonError>,
    ) -> bool {
        true
    }

    fn encode(&mut self, item: &serde_json::Value, dst: &mut Vec<u8>) -> (r: Result<
        (),
        JsonError,
    >) {
        match json_to_bytes(item) {
            Ok(bytes) => {
                append_bytes(dst, bytes.as_slice());
                assert(old(dst)@.is_prefix_of(dst@)) by {
                    assert(old(dst)@ =~= dst@.subrange(0, old(dst)@.len() as int));
                }
                Ok(())
            },
            Err(e) => {
                assert(old(dst)@.is_prefix_of(dst@)) by {
                    assert(old(dst)@ =~= dst@.subrange(0, old(dst)@.len() as int));
                }
                Err(e)
            },
        }
    }
}

} // verus!

//! A codec that ships raw bytes around: decoding hands over everything
//! buffered so far as one item, encoding appends the item's bytes verbatim.
use vstd::prelude::*;

use crate::buffer::{append_bytes, lemma_empty_suffix, split_to};
use crate::codec::{Decoder, Encoder, EncoderError, NoError};

verus! {

/// A codec whose frames are just the bytes currently available.
#[derive(Clone, Debug, Default, PartialEq)]
pub struct BytesCodec;

impl Decoder for BytesCodec {
    type Item = Vec<u8>;

    type Error = NoError;

    open spec fn decoder_inv(&self) -> bool {
        true
    }

    /// A non-empty buffer is handed over whole; an empty buffer yields no
    /// item. Decoding never fails.
    open spec fn decode_spec(
        pre: Self,
        pre_buf: Seq<u8>,
        post: Self,
        post_buf: Seq<u8>,
        r: Result<Option<Vec<u8>>, NoError>,
    ) -> bool {
        match r {
            Ok(Some(v)) => pre_buf.len() > 0 && v@ == pre_buf && post_buf.len() == 0,
            Ok(None) => pre_buf.len() == 0 && post_buf == pre_buf,
            Err(_) => false,
        }
    }

    open spec fn decode_eof_spec(
        pre: Self,
        pre_buf: Seq<u8>,
        post: Self,
        post_buf: Seq<u8>,
        r: Result<Option<Vec<u8>>, NoError>,
    ) -> bool {
        Self::decode_spec(pre, pre_buf, post, post_buf, r)
    }

    fn decode(&mut self, src: &mut Vec<u8>) -> (r: Result<Option<Vec<u8>>, NoError>) {
        let len = src.len();
        if len > 0 {
            let out = split_to(src, len);
            proof {
                assert(out@ =~= old(src)@);
                lemma_empty_suffix(old(src)@);
            }
            Ok(Some(out))
        } else {
            assert(src@.is_suffix_of(old(src)@));
            Ok(None)
        }
    }

    fn decode_eof(&mut self, src: &mut Vec<u8>) -> (r: Result<Option<Vec<u8>>, NoError>) {
        self.decode(src)
    }
}

impl EncoderError for BytesCodec {
    type Error = NoError;
}

impl Encoder for BytesCodec {
    type Item = Vec<u8>;

    open spec fn encoder_inv(&self) -> bool {
        true
    }

    /// The item's bytes are appended verbatim; encoding never fails.
    open spec fn encode_spec(
        pre: Self,
        item: Vec<u8>,
        pre_buf: Seq<u8>,
        post: Self,
        post_buf: Seq<u8>,
        r: Result<(), NoError>,
    ) -> bool {
        r is Ok && post_buf == pre_buf + item@
    }

    fn encode(&mut self, item: &Vec<u8>, dst: &mut Vec<u8>) -> (r: Result<(), NoError>) {
        append_bytes(dst, item.as_slice());
        assert(old(dst)@.is_prefix_of(dst@)) by {
            assert(old(dst)@ =~= (old(dst)@ + item@).subrange(0, old(dst)@.len() as int));
        }
        Ok(())
    }
}

/// Round trip for the byte codec: any non-empty payload that was encoded
/// into an empty buffer decodes back as the same single item, leaving no
/// undecoded bytes behind.
pub proof fn lemma_bytes_round_trip(
    c1: BytesCodec,
    c2: BytesCodec,
    payload: Seq<u8>,
    post_buf: Seq<u8>,
    r: Result<Option<Vec<u8>>, NoError>,
)
    requires
        payload.len() > 0,
        <BytesCodec as Decoder>::decode_spec(c1, payload, c2, post_buf, r),
    ensures
        r matches Ok(Some(v)) && v@ == payload,
        post_buf.len() == 0,
{
}

} // verus!

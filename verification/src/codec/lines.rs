//! A codec that splits the byte stream into text lines on the newline
//! byte, each produced line keeping its trailing newline.
use vstd::prelude::*;
use vstd::utf8::{decode_utf8, encode_scalar, encode_utf8, valid_utf8};

use crate::buffer::{lemma_skip_suffix, split_to};
use crate::codec::{Decoder, Encoder, EncoderError, NoError};
use crate::resource::{IoError, Progress};

verus! {

/// Relies on `memchr::memchr`: it returns the index of the first
/// occurrence of `needle` in `haystack`, or nothing when the byte does not
/// occur.
pub assume_specification [ memchr::memchr ](needle: u8, haystack: &[u8]) -> (r: Option<usize>)
    ensures
        r matches Some(i) ==> i < haystack@.len() && haystack@[i as int] == needle && (forall|
            j: int,
        | 0 <= j < i ==> haystack@[j] != needle),
        r is None ==> forall|j: int| 0 <= j < haystack@.len() ==> haystack@[j] != needle,
;

/// The position of the first occurrence of `b` in `s`, if any.
pub open spec fn find_byte(s: Seq<u8>, b: u8) -> Option<int>
    decreases s.len(),
{
    if s.len() == 0 {
        None
    } else if s[0] == b {
        Some(0)
    } else {
        match find_byte(s.skip(1), b) {
            Some(i) => Some(i + 1),
            None => None,
        }
    }
}

/// `find_byte` returns exactly the first occurrence.
pub proof fn lemma_find_byte_at(s: Seq<u8>, b: u8, i: int)
    requires
        0 <= i < s.len(),
        s[i] == b,
        forall|j: int| 0 <= j < i ==> s[j] != b,
    ensures
        find_byte(s, b) == Some(i),
    decreases s.len(),
{
    if i > 0 {
        assert(s.skip(1)[i - 1] == b);
        assert forall|j: int| 0 <= j < i - 1 implies s.skip(1)[j] != b by {
            assert(s.skip(1)[j] == s[j + 1]);
        }
        lemma_find_byte_at(s.skip(1), b, i - 1);
    }
}

/// `find_byte` finds nothing exactly when the byte does not occur.
pub proof fn lemma_find_byte_absent(s: Seq<u8>, b: u8)
    requires
        forall|j: int| 0 <= j < s.len() ==> s[j] != b,
    ensures
        find_byte(s, b) is None,
    decreases s.len(),
{
    if s.len() > 0 {
        assert forall|j: int| 0 <= j < s.skip(1).len() implies s.skip(1)[j] != b by {
            assert(s.skip(1)[j] == s[j + 1]);
        }
        lemma_find_byte_absent(s.skip(1), b);
    }
}

/// The error returned when a line is not valid UTF-8.
#[derive(Debug, Clone, Copy, PartialEq, Eq)]
pub struct Utf8Error;

/// Relies on `String::from_utf8`: it succeeds exactly on valid UTF-8 input
/// and yields the string those bytes encode.
#[verifier::external_body]
fn string_from_utf8(v: Vec<u8>) -> (r: Option<String>)
    ensures
        r is Some <==> valid_utf8(v@),
        r matches Some(s) ==> s@ == decode_utf8(v@),
{
    String::from_utf8(v).ok()
}

/// A codec that splits data into newline-terminated UTF-8 lines.
#[derive(Clone, Debug, Default, PartialEq)]
pub struct Lines;

impl Decoder for Lines {
    type Item = String;

    type Error = Utf8Error;

    open spec fn decoder_inv(&self) -> bool {
        true
    }

    /// Without a newline buffered nothing is consumed and no item is
    /// produced. Otherwise the bytes up to and including the first newline
    /// are consumed and decoded as UTF-8: the decoded line is the item, or
    /// the call fails when those bytes are not valid UTF-8.
    open spec fn decode_spec(
        pre: Self,
        pre_buf: Seq<u8>,
        post: Self,
        post_buf: Seq<u8>,
        r: Result<Option<String>, Utf8Error>,
    ) -> bool {
        match find_byte(pre_buf, 10u8) {
            None => post_buf == pre_buf && r matches Ok(None),
            Some(p) => post_buf == pre_buf.skip(p + 1) && if valid_utf8(pre_buf.take(p + 1)) {
                r matches Ok(Some(s)) && s@ == decode_utf8(pre_buf.take(p + 1))
            } else {
                r is Err
            },
        }
    }

    open spec fn decode_eof_spec(
        pre: Self,
        pre_buf: Seq<u8>,
        post: Self,
        post_buf: Seq<u8>,
        r: Result<Option<String>, Utf8Error>,
    ) -> bool {
        Self::decode_spec(pre, pre_buf, post, post_buf, r)
    }

    fn decode(&mut self, src: &mut Vec<u8>) -> (r: Result<Option<String>, Utf8Error>) {
        match memchr::memchr(10u8, src.as_slice()) {
            Some(pos) => {
                proof {
                    lemma_find_byte_at(src@, 10u8, pos as int);
                }
                let buf_len = src.len();
                assert(pos < buf_len);
                let chunk = split_to(src, pos + 1);
                proof {
                    lemma_skip_suffix(old(src)@, pos + 1);
                }
                match string_from_utf8(chunk) {
                    Some(s) => Ok(Some(s)),
                    None => Err(Utf8Error),
                }
            },
            None => {
                proof {
                    lemma_find_byte_absent(src@, 10u8);
                }
                assert(src@.is_suffix_of(old(src)@));
                Ok(None)
            },
        }
    }

    fn decode_eof(&mut self, src: &mut Vec<u8>) -> (r: Result<Option<String>, Utf8Error>) {
        self.decode(src)
    }
}

impl EncoderError for Lines {
    type Error = NoError;
}

impl Encoder for Lines {
    type Item = String;

    open spec fn encoder_inv(&self) -> bool {
        true
    }

    /// The line's UTF-8 bytes are appended verbatim; encoding never fails.
    open spec fn encode_spec(
        pre: Self,
        item: String,
        pre_buf: Seq<u8>,
        post: Self,
        post_buf: Seq<u8>,
        r: Result<(), NoError>,
    ) -> bool {
        r is Ok && post_buf == pre_buf + encode_utf8(item@)
    }

    fn encode(&mut self, item: &String, dst: &mut Vec<u8>) -> (r: Result<(), NoError>) {
        let s: &str = &*item;
        crate::buffer::append_bytes(dst, s.as_bytes());
        assert(old(dst)@.is_prefix_of(dst@)) by {
            assert(old(dst)@ =~= dst@.subrange(0, old(dst)@.len() as int));
        }
        Ok(())
    }
}

/// No byte of the UTF-8 encoding of a newline-free character sequence is
/// the newline byte.
proof fn lemma_encode_no_newline_byte(chars: Seq<char>)
    requires
        forall|i: int| 0 <= i < chars.len() ==> chars[i] != '\n',
    ensures
        forall|j: int|
            0 <= j < encode_utf8(chars).len() ==> #[trigger] encode_utf8(chars)[j] != 10u8,
    decreases chars.len(),
{
    if chars.len() > 0 {
        let c = chars[0] as u32;
        vstd::utf8::char_is_scalar(chars[0]);
        assert(c != 10) by {
            if c == 10 {
                vstd::utf8::char_u32_cast(chars[0], c);
                assert(chars[0] == 10u32 as char);
                assert(chars[0] == '\n');
            }
        }
        assert forall|j: int|
            0 <= j < encode_scalar(c).len() implies #[trigger] encode_scalar(c)[j] != 10u8 by {
            if vstd::utf8::has_width_1_encoding(c) {
                assert((c & 0x7F) as u8 != 10) by (bit_vector)
                    requires
                        c < 0x80,
                        c != 10,
                ;
            } else {
                assert(0xC0u8 | ((c >> 6) & 0x1F) as u8 != 10) by (bit_vector);
                assert(0xE0u8 | ((c >> 12) & 0x0F) as u8 != 10) by (bit_vector);
                assert(0xF0u8 | ((c >> 18) & 0x7) as u8 != 10) by (bit_vector);
                assert(0x80u8 | (c & 0x3F) as u8 != 10) by (bit_vector);
                assert(0x80u8 | ((c >> 6) & 0x3F) as u8 != 10) by (bit_vector);
                assert(0x80u8 | ((c >> 12) & 0x3F) as u8 != 10) by (bit_vector);
            }
        }
        let rest = chars.drop_first();
        assert forall|i: int| 0 <= i < rest.len() implies rest[i] != '\n' by {
            assert(rest[i] == chars[i + 1]);
        }
        lemma_encode_no_newline_byte(rest);
        assert forall|j: int|
            0 <= j < encode_utf8(chars).len() implies #[trigger] encode_utf8(chars)[j]
            != 10u8 by {
            let head = encode_scalar(c);
            assert(encode_utf8(chars) == head + encode_utf8(rest));
            if j < head.len() {
                assert(encode_utf8(chars)[j] == head[j]);
            } else {
                assert(encode_utf8(chars)[j] == encode_utf8(rest)[j - head.len()]);
            }
        }
    }
}

/// The newline character encodes as the single newline byte.
proof fn lemma_newline_scalar()
    ensures
        encode_scalar('\n' as u32) =~= seq![10u8],
{
    assert(('\n' as u32) == 10);
    assert((10u32 & 0x7F) as u8 == 10u8) by (bit_vector);
}

/// Round trip for the line codec: a line that ends with its only newline,
/// once encoded into an empty buffer, decodes back as the same single
/// line, leaving no undecoded bytes behind.
pub proof fn lemma_lines_round_trip(
    c1: Lines,
    c2: Lines,
    line: Seq<char>,
    post_buf: Seq<u8>,
    r: Result<Option<String>, Utf8Error>,
)
    requires
        line.len() > 0,
        line.last() == '\n',
        forall|i: int| 0 <= i < line.len() - 1 ==> line[i] != '\n',
        <Lines as Decoder>::decode_spec(c1, encode_utf8(line), c2, post_buf, r),
    ensures
        r matches Ok(Some(s)) && s@ == line,
        post_buf.len() == 0,
{
    let bytes = encode_utf8(line);
    let head = line.drop_last();
    assert(line =~= head + seq!['\n']);
    lemma_encode_utf8_concat(head, seq!['\n']);
    lemma_newline_scalar();
    assert(encode_utf8(seq!['\n']) =~= encode_scalar('\n' as u32) + encode_utf8(
        Seq::<char>::empty(),
    )) by {
        assert(seq!['\n'].drop_first() =~= Seq::<char>::empty());
    }
    assert(bytes =~= encode_utf8(head) + seq![10u8]);
    lemma_encode_no_newline_byte(head);
    let p = encode_utf8(head).len() as int;
    assert(bytes[p] == 10u8);
    assert forall|j: int| 0 <= j < p implies bytes[j] != 10u8 by {
        assert(bytes[j] == encode_utf8(head)[j]);
    }
    lemma_find_byte_at(bytes, 10u8, p);
    assert(bytes.take(p + 1) =~= bytes);
    assert(bytes.skip(p + 1) =~= Seq::<u8>::empty());
    vstd::utf8::encode_utf8_valid_utf8(line);
    vstd::utf8::encode_utf8_decode_utf8(line);
}

/// `encode_utf8` distributes over concatenation.
proof fn lemma_encode_utf8_concat(a: Seq<char>, b: Seq<char>)
    ensures
        encode_utf8(a + b) == encode_utf8(a) + encode_utf8(b),
    decreases a.len(),
{
    if a.len() == 0 {
        assert(a + b =~= b);
        assert(encode_utf8(a) =~= Seq::<u8>::empty());
        assert(encode_utf8(a) + encode_utf8(b) =~= encode_utf8(b));
    } else {
        assert((a + b).drop_first() =~= a.drop_first() + b);
        lemma_encode_utf8_concat(a.drop_first(), b);
        assert(encode_utf8(a + b) =~= encode_utf8(a) + encode_utf8(b));
    }
}

/// Partial-frame stability for the line codec: any strict prefix of an
/// encoded line that stops before the newline decodes to nothing and
/// leaves the buffer byte-for-byte unchanged; once the remaining bytes
/// arrive, the same line completes (see [`lemma_lines_round_trip`]).
pub proof fn lemma_lines_partial_frame(
    c1: Lines,
    c2: Lines,
    line: Seq<char>,
    cut: int,
    post_buf: Seq<u8>,
    r: Result<Option<String>, Utf8Error>,
)
    requires
        line.len() > 0,
        line.last() == '\n',
        forall|i: int| 0 <= i < line.len() - 1 ==> line[i] != '\n',
        0 <= cut < encode_utf8(line).len(),
        <Lines as Decoder>::decode_spec(c1, encode_utf8(line).take(cut), c2, post_buf, r),
    ensures
        r matches Ok(None),
        post_buf == encode_utf8(line).take(cut),
{
    let bytes = encode_utf8(line);
    let head = line.drop_last();
    assert(line =~= head + seq!['\n']);
    lemma_encode_utf8_concat(head, seq!['\n']);
    lemma_newline_scalar();
    assert(encode_utf8(seq!['\n']) =~= encode_scalar('\n' as u32) + encode_utf8(
        Seq::<char>::empty(),
    )) by {
        assert(seq!['\n'].drop_first() =~= Seq::<char>::empty());
    }
    assert(bytes =~= encode_utf8(head) + seq![10u8]);
    lemma_encode_no_newline_byte(head);
    assert forall|j: int| 0 <= j < cut implies bytes.take(cut)[j] != 10u8 by {
        assert(bytes.take(cut)[j] == bytes[j]);
        assert(bytes[j] == encode_utf8(head)[j]);
    }
    lemma_find_byte_absent(bytes.take(cut), 10u8);
}

/// Truncation with the line codec: when the stream has ended with
/// buffered bytes that hold no newline, the transport's end-of-input
/// step ([`crate::eof_step`]) reports the truncated stream as an
/// unexpected end-of-file and leaves the bytes unconsumed — it never
/// surfaces a partial line as an item.
pub proof fn lemma_lines_truncated_stream(
    pre: Lines,
    buf: Seq<u8>,
    post: Lines,
    post_buf: Seq<u8>,
    r: Progress<Option<Result<String, crate::Error<Utf8Error>>>>,
)
    requires
        buf.len() > 0,
        find_byte(buf, 10u8) is None,
        crate::eof_step(pre, buf, post, post_buf, r),
    ensures
        r matches Progress::Ready(Some(Err(crate::Error::Io(IoError::UnexpectedEof)))),
        post_buf == buf,
{
    let (mid, mid_buf, ir): (Lines, Seq<u8>, Result<Option<String>, Utf8Error>) = choose|
        mid: Lines,
        mid_buf: Seq<u8>,
        ir: Result<Option<String>, Utf8Error>,
    |
        #[trigger] <Lines as Decoder>::decode_spec(pre, buf, mid, mid_buf, ir) && match ir {
            Ok(Some(item)) => post == mid && post_buf == mid_buf && (r matches Progress::Ready(
                Some(Ok(out)),
            ) && out == item),
            Err(e) => post == mid && post_buf == mid_buf && (r matches Progress::Ready(
                Some(Err(crate::Error::Codec(ce))),
            ) && ce == e),
            Ok(None) => {
                if mid_buf.len() == 0 {
                    post == mid && post_buf == mid_buf && r matches Progress::Ready(None)
                } else {
                    exists|mid2: Lines, mid_buf2: Seq<u8>, ir2: Result<Option<String>, Utf8Error>|
                        #[trigger] <Lines as Decoder>::decode_eof_spec(
                            mid,
                            mid_buf,
                            mid2,
                            mid_buf2,
                            ir2,
                        ) && post == mid2 && post_buf == mid_buf2 && match ir2 {
                            Ok(Some(item)) => r matches Progress::Ready(Some(Ok(out))) && out
                                == item,
                            Err(e) => (r matches Progress::Ready(
                                Some(Err(crate::Error::Codec(ce))),
                            ) && ce == e),
                            Ok(None) => {
                                if mid_buf2.len() == 0 {
                                    r matches Progress::Ready(None)
                                } else {
                                    r matches Progress::Ready(
                                        Some(Err(crate::Error::Io(IoError::UnexpectedEof))),
                                    )
                                }
                            },
                        }
                }
            },
        };
    // No newline buffered: the ordinary decode produces nothing and
    // leaves the buffer untouched.
    assert(ir matches Ok(None));
    assert(mid_buf == buf);
    let (mid2, mid_buf2, ir2): (Lines, Seq<u8>, Result<Option<String>, Utf8Error>) = choose|
        mid2: Lines,
        mid_buf2: Seq<u8>,
        ir2: Result<Option<String>, Utf8Error>,
    |
        #[trigger] <Lines as Decoder>::decode_eof_spec(mid, mid_buf, mid2, mid_buf2, ir2) && post
            == mid2 && post_buf == mid_buf2 && match ir2 {
            Ok(Some(item)) => r matches Progress::Ready(Some(Ok(out))) && out == item,
            Err(e) => (r matches Progress::Ready(Some(Err(crate::Error::Codec(ce)))) && ce == e),
            Ok(None) => {
                if mid_buf2.len() == 0 {
                    r matches Progress::Ready(None)
                } else {
                    r matches Progress::Ready(
                        Some(Err(crate::Error::Io(IoError::UnexpectedEof))),
                    )
                }
            },
        };
    // The end-of-stream decode sees the same newline-free bytes and
    // produces nothing either; the leftovers are the truncation.
    assert(ir2 matches Ok(None));
    assert(mid_buf2 == buf);
}

} // verus!

//! Byte-buffer primitives shared by the codecs and the transport.
//!
//! A buffer is a plain `Vec<u8>`. Decoders consume bytes only from the
//! front, so the buffer left behind by a decode call is always a suffix of
//! the buffer it was handed; encoders only append. The helpers here realise
//! those two disciplines and carry the contracts the rest of the crate
//! builds on.
use vstd::prelude::*;

verus! {

/// Removes the first `n` bytes of `buf`, keeping the rest in order.
pub fn drain_front(buf: &mut Vec<u8>, n: usize)
    requires
        n <= old(buf)@.len(),
    ensures
        final(buf)@ == old(buf)@.skip(n as int),
{
    let mut tail = buf.split_off(n);
    buf.clear();
    buf.append(&mut tail);
    assert(buf@ =~= old(buf)@.skip(n as int));
}

/// Removes and returns the first `n` bytes of `buf`.
pub fn split_to(buf: &mut Vec<u8>, n: usize) -> (front: Vec<u8>)
    requires
        n <= old(buf)@.len(),
    ensures
        front@ == old(buf)@.take(n as int),
        final(buf)@ == old(buf)@.skip(n as int),
{
    let mut tail = buf.split_off(n);
    core::mem::swap(buf, &mut tail);
    assert(buf@ =~= old(buf)@.skip(n as int));
    tail
}

/// Appends every byte of `src` to the end of `dst`.
pub fn append_bytes(dst: &mut Vec<u8>, src: &[u8])
    ensures
        final(dst)@ == old(dst)@ + src@,
{
    let mut i: usize = 0;
    while i < src.len()
        invariant
            i <= src@.len(),
            dst@ == old(dst)@ + src@.take(i as int),
        decreases src@.len() - i,
    {
        dst.push(src[i]);
        i = i + 1;
        assert(dst@ =~= old(dst)@ + src@.take(i as int));
    }
    assert(dst@ =~= old(dst)@ + src@);
}

/// Returns a copy of the first `n` bytes of `buf` without touching it.
pub fn copy_front(buf: &Vec<u8>, n: usize) -> (front: Vec<u8>)
    requires
        n <= buf@.len(),
    ensures
        front@ == buf@.take(n as int),
{
    let mut out: Vec<u8> = Vec::new();
    let mut i: usize = 0;
    while i < n
        invariant
            i <= n <= buf@.len(),
            out@ == buf@.take(i as int),
        decreases n - i,
    {
        out.push(buf[i]);
        i = i + 1;
        assert(out@ =~= buf@.take(i as int));
    }
    out
}

/// Removing a prefix is transitive: a suffix of a suffix of `s` is itself a
/// suffix of `s`.
pub proof fn lemma_suffix_trans(a: Seq<u8>, b: Seq<u8>, c: Seq<u8>)
    requires
        a.is_suffix_of(b),
        b.is_suffix_of(c),
    ensures
        a.is_suffix_of(c),
{
    assert(a =~= c.subrange((c.len() - a.len()) as int, c.len() as int));
}

/// The empty buffer is a suffix of every buffer.
pub proof fn lemma_empty_suffix(s: Seq<u8>)
    ensures
        Seq::<u8>::empty().is_suffix_of(s),
{
    assert(Seq::<u8>::empty() =~= s.subrange(s.len() as int, s.len() as int));
}

/// Dropping a front segment of a buffer leaves a suffix of it.
pub proof fn lemma_skip_suffix(s: Seq<u8>, n: int)
    requires
        0 <= n <= s.len(),
    ensures
        s.skip(n).is_suffix_of(s),
{
    assert(s.skip(n) =~= s.subrange(n, s.len() as int));
}

} // verus!

//! An in-memory byte resource: a cursor over a byte vector that serves
//! both as a readable and as a writable resource, always ready.
//!
//! Reads hand out the bytes after the current position and advance it; a
//! read at the end reports end-of-input. Writes overwrite the bytes at
//! the current position; a growable cursor extends its storage past the
//! end, a fixed one accepts only what fits and then accepts nothing — the
//! condition a transport treats as a broken resource.
use vstd::prelude::*;

use crate::buffer::{append_bytes, copy_front};
use crate::resource::{ByteReader, ByteWriter, IoError, Progress};

verus! {

/// An always-ready in-memory byte resource.
pub struct MemIo {
    /// The backing bytes.
    pub data: Vec<u8>,
    /// The position at which the next read or write happens. A position
    /// past the end behaves like the end.
    pub pos: usize,
    /// Whether writes past the end grow the backing storage.
    pub grow: bool,
}

/// The effective position: a position past the end behaves like the end.
pub open spec fn eff_pos(m: MemIo) -> int {
    if m.pos <= m.data@.len() {
        m.pos as int
    } else {
        m.data@.len() as int
    }
}

impl MemIo {
    /// A cursor over `data`, positioned at its start.
    pub fn new(data: Vec<u8>, grow: bool) -> (r: Self)
        ensures
            r.data == data,
            r.pos == 0,
            r.grow == grow,
    {
        MemIo { data, pos: 0, grow }
    }

    /// Moves the cursor back to the start, as before re-reading what was
    /// written.
    pub fn rewind(&mut self)
        ensures
            final(self).data == old(self).data,
            final(self).pos == 0,
            final(self).grow == old(self).grow,
    {
        self.pos = 0;
    }

    /// The current position.
    pub fn position(&self) -> (r: usize)
        ensures
            r == self.pos,
    {
        self.pos
    }

    /// A reference to the backing bytes.
    pub fn get_ref(&self) -> (r: &Vec<u8>)
        ensures
            r@ == self.data@,
    {
        &self.data
    }

    /// Consumes the cursor, returning the backing bytes.
    pub fn into_data(self) -> (r: Vec<u8>)
        ensures
            r == self.data,
    {
        self.data
    }

    /// Reads up to `max` bytes at the position and advances past them.
    fn read_chunk(&mut self, max: usize) -> (out: Vec<u8>)
        ensures
            final(self).grow == old(self).grow,
            final(self).data == old(self).data,
            out@.len() <= max,
            ({
                let start = eff_pos(*old(self));
                let n = out@.len() as int;
                &&& out@ == old(self).data@.subrange(start, start + n)
                &&& n == (if max <= old(self).data@.len() - start {
                    max as int
                } else {
                    old(self).data@.len() - start
                })
                &&& final(self).pos == start + n
            }),
    {
        let start = if self.pos <= self.data.len() {
            self.pos
        } else {
            self.data.len()
        };
        let avail = self.data.len() - start;
        let n = if max <= avail {
            max
        } else {
            avail
        };
        let data_len = self.data.len();
        let mut out: Vec<u8> = Vec::new();
        let mut i: usize = 0;
        while i < n
            invariant
                i <= n,
                start + n <= data_len,
                data_len == self.data@.len(),
                out@ == self.data@.subrange(start as int, start + i),
            decreases n - i,
        {
            out.push(self.data[start + i]);
            i = i + 1;
            assert(out@ =~= self.data@.subrange(start as int, start + i));
        }
        self.pos = start + n;
        out
    }

    /// Writes `input` at the position: overwrites what is there, extends
    /// the storage if growable, and reports how many bytes were accepted.
    fn write_chunk(&mut self, input: &[u8]) -> (n: usize)
        ensures
            final(self).grow == old(self).grow,
            n <= input@.len(),
            ({
                let start = eff_pos(*old(self));
                let old_data = old(self).data@;
                &&& n == (if old(self).grow || input@.len() <= old_data.len() - start {
                    input@.len() as int
                } else {
                    old_data.len() - start
                })
                &&& final(self).data@ == old_data.take(start) + input@.take(n as int)
                    + old_data.skip(
                    if start + n <= old_data.len() {
                        start + n
                    } else {
                        old_data.len() as int
                    },
                )
                &&& final(self).pos == start + n
            }),
    {
        let start = if self.pos <= self.data.len() {
            self.pos
        } else {
            self.data.len()
        };
        let room = self.data.len() - start;
        let n = if self.grow || input.len() <= room {
            input.len()
        } else {
            room
        };
        let mut nd = copy_front(&self.data, start);
        append_bytes(&mut nd, &input[0..n]);
        let new_pos = nd.len();
        assert(new_pos == start + n);
        let tail_start = if start + n <= self.data.len() {
            start + n
        } else {
            self.data.len()
        };
        let mut i = tail_start;
        while i < self.data.len()
            invariant
                tail_start <= i <= self.data@.len(),
                nd@ == self.data@.take(eff_pos(*old(self))).add(input@.take(n as int)).add(
                    self.data@.subrange(tail_start as int, i as int),
                ),
                self.data == old(self).data,
                start == eff_pos(*old(self)),
                n <= input@.len(),
                tail_start == (if start + n <= self.data@.len() {
                    start + n
                } else {
                    self.data@.len() as int
                }),
            decreases self.data@.len() - i,
        {
            nd.push(self.data[i]);
            i = i + 1;
            assert(nd@ =~= self.data@.take(eff_pos(*old(self))).add(input@.take(n as int)).add(
                self.data@.subrange(tail_start as int, i as int),
            ));
        }
        proof {
            assert(nd@ =~= old(self).data@.take(start as int) + input@.take(n as int) + old(
                self,
            ).data@.skip(tail_start as int));
        }
        self.data = nd;
        self.pos = new_pos;
        n
    }
}

impl ByteReader for MemIo {
    fn poll_read(&mut self, max: usize) -> (r: Progress<Result<Vec<u8>, IoError>>) {
        let out = self.read_chunk(max);
        Progress::Ready(Ok(out))
    }
}

impl ByteWriter for MemIo {
    fn poll_write(&mut self, data: &[u8]) -> (r: Progress<Result<usize, IoError>>) {
        let n = self.write_chunk(data);
        Progress::Ready(Ok(n))
    }

    fn poll_flush(&mut self) -> (r: Progress<Result<(), IoError>>) {
        Progress::Ready(Ok(()))
    }

    fn poll_close(&mut self) -> (r: Progress<Result<(), IoError>>) {
        Progress::Ready(Ok(()))
    }
}

} // verus!

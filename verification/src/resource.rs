//! The byte-resource boundary: an abstract readable / writable duplex with
//! non-blocking operations.
//!
//! Every operation either makes progress ([`Progress::Ready`]) or asks the
//! caller to retry later ([`Progress::Pending`]). The transport in this
//! crate is written against these two traits alone; concrete resources (an
//! in-memory cursor, a socket adapter, a test double) implement them.
use vstd::prelude::*;

verus! {

/// Outcome of a non-blocking operation: either a result, or a request to
/// call again once the resource can make progress.
#[derive(Debug)]
pub enum Progress<T> {
    Ready(T),
    Pending,
}

/// Errors reported by a byte resource or raised by the transport while
/// driving one.
#[derive(Debug, Clone, Copy, PartialEq, Eq)]
pub enum IoError {
    /// The stream ended where more bytes were owed: a truncated inbound
    /// stream, or an outbound resource that stopped accepting bytes.
    UnexpectedEof,
    /// Any other failure of the underlying resource.
    Other,
}

/// The readable half of a byte resource.
pub trait ByteReader {
    /// Attempts one read. `Ready(Ok(v))` hands over the bytes read, at most
    /// `max` of them; an empty result marks end-of-input. The contract is
    /// deliberately silent on which bytes arrive: the transport must cope
    /// with every possible answer.
    fn poll_read(&mut self, max: usize) -> (r: Progress<Result<Vec<u8>, IoError>>)
        ensures
            r matches Progress::Ready(Ok(v)) ==> v@.len() <= max,
    ;
}

/// The writable half of a byte resource.
pub trait ByteWriter {
    /// Attempts one write. `Ready(Ok(n))` means the resource accepted the
    /// first `n` bytes of `data`; `n == 0` signals that it can accept no
    /// more at all.
    fn poll_write(&mut self, data: &[u8]) -> (r: Progress<Result<usize, IoError>>)
        ensures
            r matches Progress::Ready(Ok(n)) ==> n <= data@.len(),
    ;

    /// Pushes previously accepted bytes towards their destination.
    fn poll_flush(&mut self) -> (r: Progress<Result<(), IoError>>);

    /// Flushes and closes the resource.
    fn poll_close(&mut self) -> (r: Progress<Result<(), IoError>>);
}

} // verus!

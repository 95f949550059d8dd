//! A writer that appends to a byte buffer.
//!
//! `Writer` adapts a growable buffer of the `bytes` crate to the shape of a
//! byte sink: `write` takes a slice and reports how much of it was taken,
//! `flush` reports that nothing is held back.

use bytes::{BufMut, BytesMut};
use vstd::prelude::*;

verus! {

/// `bytes::BytesMut`, a growable buffer of bytes. Nothing inside it is
/// visible here; `buffer_bytes` names what it holds.
#[verifier::external_type_specification]
#[verifier::external_body]
pub struct ExBytesMut(bytes::BytesMut);

/// `std::io::Error`, carried through and never looked into.
#[verifier::external_type_specification]
#[verifier::external_body]
pub struct ExIoError(std::io::Error);

/// The bytes that a buffer holds, first to last.
pub uninterp spec fn buffer_bytes(buffer: bytes::BytesMut) -> Seq<u8>;

/// `BufMut::put_slice` on a `BytesMut` appends the whole of `src` to what the
/// buffer holds, growing the buffer where its capacity does not suffice. It
/// panics where the new length does not fit; the precondition keeps the
/// length within what an allocation can have.
pub assume_specification[ <bytes::BytesMut as bytes::BufMut>::put_slice ](
    buffer: &mut bytes::BytesMut,
    src: &[u8],
)
    requires
        buffer_bytes(*old(buffer)).len() + src@.len() <= isize::MAX,
    ensures
        buffer_bytes(*final(buffer)) == buffer_bytes(*old(buffer)) + src@,
;

/// `BytesMut::len` gives the number of bytes that the buffer holds.
pub assume_specification[ bytes::BytesMut::len ](buffer: &bytes::BytesMut) -> (n: usize)
    ensures
        n == buffer_bytes(*buffer).len(),
;

/// Whether a buffer that holds `held` can take `more` and stay within what
/// an allocation can have.
pub open spec fn fits(held: Seq<u8>, more: Seq<u8>) -> bool {
    held.len() + more.len() <= isize::MAX
}

/// A byte sink over a borrowed buffer.
pub struct Writer<'a, B>(pub &'a mut B);

impl<'a> Writer<'a, BytesMut> {
    /// Appends the whole of `buf` to the buffer and reports its length as
    /// the number of bytes written. It never fails. The writer keeps the
    /// buffer that it was made with: what the buffer will hold when the
    /// writer lets go of it is decided by the same writes as before (the
    /// last clause).
    pub fn write(&mut self, buf: &[u8]) -> (written: std::io::Result<usize>)
        requires
            fits(buffer_bytes(*old(self).0), buf@),
        ensures
            written matches Ok(n) && n == buf@.len(),
            buffer_bytes(*final(self).0) == buffer_bytes(*old(self).0) + buf@,
            *final(final(self).0) == *final(old(self).0),
    {
        self.0.put_slice(buf);
        Ok(buf.len())
    }

    /// Appends the whole of `buf` to the buffer if the buffer can take it,
    /// and reports its length; if it cannot, nothing is written and `None`
    /// comes back. Either way the writer keeps its buffer.
    pub fn try_write(&mut self, buf: &[u8]) -> (written: Option<usize>)
        ensures
            fits(buffer_bytes(*old(self).0), buf@) ==> written == Some(buf@.len() as usize)
                && buffer_bytes(*final(self).0) == buffer_bytes(*old(self).0) + buf@,
            !fits(buffer_bytes(*old(self).0), buf@) ==> written.is_none() && buffer_bytes(
                *final(self).0,
            ) == buffer_bytes(*old(self).0),
            *final(final(self).0) == *final(old(self).0),
    {
        let most: usize = isize::MAX as usize;
        let held: usize = self.0.len();
        if held <= most && buf.len() <= most - held {
            match self.write(buf) {
                Ok(n) => Some(n),
                Err(_) => None,
            }
        } else {
            None
        }
    }

    /// Nothing is held back, so there is nothing to do: the writer and its
    /// buffer stay as they are. It never fails.
    pub fn flush(&mut self) -> (flushed: std::io::Result<()>)
        ensures
            flushed is Ok,
            *final(self) == *old(self),
    {
        Ok(())
    }
}

} // verus!

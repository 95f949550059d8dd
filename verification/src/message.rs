//! The greeting that the JSON endpoints send, and the buffer that its JSON
//! form is written into.

use crate::writer::buffer_bytes;
use bytes::BytesMut;
use vstd::prelude::*;

verus! {

/// The number of bytes in the JSON form of the greeting: the capacity that a
/// body buffer is made with.
pub const JSON_MSG_SIZE: usize = 27;

/// The payload of the JSON endpoints: an object with the one key `message`.
#[derive(Clone, Copy, Debug, PartialEq, Eq)]
pub struct Message {
    pub message: &'static str,
}

/// `BytesMut::with_capacity` makes a buffer that holds nothing; the capacity
/// only says how much it can take before it has to grow. It panics beyond
/// the largest allocation, which the precondition leaves out.
pub assume_specification[ bytes::BytesMut::with_capacity ](capacity: usize) -> (buffer:
    bytes::BytesMut)
    requires
        capacity <= isize::MAX,
    ensures
        buffer_bytes(buffer) == Seq::<u8>::empty(),
;

/// An empty buffer for the body of a JSON reply, with room for one encoded
/// greeting.
pub fn body_buffer() -> (buffer: BytesMut)
    ensures
        buffer_bytes(buffer) == Seq::<u8>::empty(),
{
    BytesMut::with_capacity(JSON_MSG_SIZE)
}

} // verus!

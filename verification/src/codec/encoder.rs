//! Message-to-byte encoding contracts.
use bytes::{Bytes, BytesMut};

use vstd::prelude::*;

use crate::buffer::{buffer_bytes, chunk_bytes, chunk_slice, readable};

verus! {

/// Encodes messages into a cumulative output buffer.
///
/// An encoder instance belongs to one connection. A failed call is rolled back
/// by [`crate::codec::MessageWriter`], so bytes appended during that call are never
/// written. Implementations should also leave their own protocol state usable
/// after returning an error.
pub trait MessageEncoder<M>: Sized {
    /// Protocol-specific encode error.
    type Error;

    /// Whether the encoded message has room behind `output`.
    ///
    /// An implementation that does not say leaves it open.
    open spec fn has_room(before: Self, message: M, output: Seq<u8>) -> bool {
        true
    }

    /// Whether one call may turn `before` into `after` and `output` into
    /// `written` with `result`.
    ///
    /// An implementation that does not say leaves it open.
    open spec fn encodes(
        before: Self,
        message: M,
        output: Seq<u8>,
        after: Self,
        written: Seq<u8>,
        result: Result<(), Self::Error>,
    ) -> bool {
        true
    }

    /// Append one encoded message to `output`.
    ///
    /// # Errors
    ///
    /// Returns a protocol-specific error.
    fn encode(&mut self, message: M, output: &mut BytesMut) -> (result: Result<(), Self::Error>)
        requires
            Self::has_room(*old(self), message, buffer_bytes(*old(output))),
        ensures
            Self::encodes(
                *old(self),
                message,
                buffer_bytes(*old(output)),
                *final(self),
                buffer_bytes(*final(output)),
                result,
            ),
    ;
}

/// Something that lends the bytes of a message.
pub trait Payload {
    spec fn content(&self) -> Seq<u8>;

    fn bytes(&self) -> (bytes: &[u8])
        ensures
            bytes@ == self.content(),
    ;
}

impl Payload for &[u8] {
    open spec fn content(&self) -> Seq<u8> {
        self@
    }

    fn bytes(&self) -> (bytes: &[u8]) {
        self
    }
}

impl Payload for Vec<u8> {
    open spec fn content(&self) -> Seq<u8> {
        self@
    }

    fn bytes(&self) -> (bytes: &[u8]) {
        self.as_slice()
    }
}

impl Payload for BytesMut {
    open spec fn content(&self) -> Seq<u8> {
        buffer_bytes(*self)
    }

    fn bytes(&self) -> (bytes: &[u8]) {
        readable(self)
    }
}

impl Payload for Bytes {
    open spec fn content(&self) -> Seq<u8> {
        chunk_bytes(*self)
    }

    fn bytes(&self) -> (bytes: &[u8]) {
        chunk_slice(self)
    }
}

} // verus!

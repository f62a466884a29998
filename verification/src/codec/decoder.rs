//! Per-connection byte-to-message decoder contract.
use bytes::BytesMut;

use vstd::prelude::*;

use crate::buffer::buffer_bytes;

verus! {

/// Converts cumulative inbound bytes into messages.
///
/// A decoder instance belongs to one connection. Return `Ok(None)` without
/// consuming input when a complete message has not arrived.
pub trait MessageDecoder: Sized {
    /// Decoded message type.
    type Message;

    /// Protocol-specific decode error.
    type Error;

    /// Whether one call may turn `before` into `after` and `input` into `rest`
    /// with `result`.
    ///
    /// An implementation that does not say leaves it open.
    open spec fn decodes(
        before: Self,
        input: Seq<u8>,
        after: Self,
        rest: Seq<u8>,
        result: Result<Option<Self::Message>, Self::Error>,
    ) -> bool {
        true
    }

    /// Whether one call after the end of the transport may turn `before` into `after`
    /// and `input` into `rest` with `result`.
    ///
    /// An implementation that does not say decodes as before the end.
    open spec fn decodes_eof(
        before: Self,
        input: Seq<u8>,
        after: Self,
        rest: Seq<u8>,
        result: Result<Option<Self::Message>, Self::Error>,
    ) -> bool {
        Self::decodes(before, input, after, rest, result)
    }

    /// Attempt to decode one message from cumulative input.
    ///
    /// # Errors
    ///
    /// Returns a protocol-specific error for malformed input.
    fn decode(&mut self, input: &mut BytesMut) -> (result: Result<
        Option<Self::Message>,
        Self::Error,
    >)
        ensures
            Self::decodes(
                *old(self),
                buffer_bytes(*old(input)),
                *final(self),
                buffer_bytes(*final(input)),
                result,
            ),
    ;

    /// Attempt to decode one final message after transport EOF.
    ///
    /// A decoder whose messages do not depend on the end delegates to
    /// [`Self::decode`].
    ///
    /// # Errors
    ///
    /// Returns a protocol-specific error for malformed final input.
    fn decode_eof(&mut self, input: &mut BytesMut) -> (result: Result<
        Option<Self::Message>,
        Self::Error,
    >)
        ensures
            Self::decodes_eof(
                *old(self),
                buffer_bytes(*old(input)),
                *final(self),
                buffer_bytes(*final(input)),
                result,
            ),
    ;
}

} // verus!

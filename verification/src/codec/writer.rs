//! Writing messages to a byte transport.
//!
//! The transport itself is written elsewhere: [`MessageWriter::flush_step`] says
//! what has to be done, and [`MessageWriter::on_written`] takes in how it went.
use bytes::BytesMut;

use vstd::prelude::*;

use super::MessageEncoder;
use crate::buffer::{buffer_bytes, made_with_capacity};
use crate::text::{join_text, TextError};

verus! {

const DEFAULT_BUFFER_CAPACITY: usize = 8 * 1024;

/// A transport or encoder error while writing a message.
#[derive(Debug)]
pub enum MessageWriteError<E> {
    /// The asynchronous byte transport failed.
    Io(String),
    /// The protocol encoder rejected a message.
    Encoder(E),
}

impl<E: TextError> TextError for MessageWriteError<E> {
    open spec fn text_of(&self) -> Seq<char> {
        match self {
            Self::Io(error) => "I/O error: "@ + error@,
            Self::Encoder(error) => "encoder error: "@ + error.text_of(),
        }
    }

    fn to_text(&self) -> (text: String) {
        match self {
            Self::Io(error) => join_text("I/O error: ", error.as_str()),
            Self::Encoder(error) => join_text("encoder error: ", error.to_text().as_str()),
        }
    }
}

/// What a flush does next.
#[derive(Debug, Clone, Copy, PartialEq, Eq, Structural)]
pub enum FlushStep {
    /// Offer the queued bytes to the transport.
    Write,
    /// Nothing is queued; flush the transport itself.
    FlushTransport,
}

/// The transport accepted none of the queued bytes.
#[derive(Debug, Clone, Copy, PartialEq, Eq, Structural)]
pub struct NothingAccepted;

impl TextError for NothingAccepted {
    open spec fn text_of(&self) -> Seq<char> {
        "transport accepted no queued bytes"@
    }

    fn to_text(&self) -> (text: String) {
        "transport accepted no queued bytes".to_owned()
    }
}

/// Encodes messages into one cumulative `BytesMut` and writes them.
#[derive(Debug)]
pub struct MessageWriter<W, E> {
    writer: W,
    encoder: E,
    buffer: BytesMut,
}

/// What a flush does next when `queued` bytes are queued.
pub open spec fn next_flush_step(queued: nat) -> FlushStep {
    if queued == 0 {
        FlushStep::FlushTransport
    } else {
        FlushStep::Write
    }
}

/// Whether feeding `message` leads from `before` to `after`: what the encoder
/// appends is queued, and what it appends before it fails is taken back.
pub open spec fn feeds<W, M, E: MessageEncoder<M>>(
    before: MessageWriter<W, E>,
    message: M,
    after: MessageWriter<W, E>,
    result: Result<(), E::Error>,
) -> bool {
    &&& after.sink() == before.sink()
    &&& exists|written: Seq<u8>|
        {
            &&& #[trigger] E::encodes(
                before.encodes_with(),
                message,
                before.output(),
                after.encodes_with(),
                written,
                result,
            )
            &&& after.output() == if result is Ok || written.len() < before.output().len() {
                written
            } else {
                written.take(before.output().len() as int)
            }
        }
}

/// Whether a transport that accepts `written` queued bytes leads from `before` to
/// `after`.
pub open spec fn accepts<W, E>(
    before: MessageWriter<W, E>,
    written: usize,
    after: MessageWriter<W, E>,
    result: Result<FlushStep, NothingAccepted>,
) -> bool {
    &&& after.sink() == before.sink()
    &&& after.encodes_with() == before.encodes_with()
    &&& after.output() == before.output().skip(written as int)
    &&& result == if written == 0 {
        Err::<FlushStep, _>(NothingAccepted)
    } else {
        Ok(next_flush_step(after.output().len()))
    }
}

impl<W, E> MessageWriter<W, E> {
    pub closed spec fn sink(&self) -> W {
        self.writer
    }

    pub closed spec fn encodes_with(&self) -> E {
        self.encoder
    }

    /// The bytes that are queued.
    pub closed spec fn output(&self) -> Seq<u8> {
        buffer_bytes(self.buffer)
    }

    pub closed spec fn output_buffer(&self) -> BytesMut {
        self.buffer
    }

    /// Create a writer with the default 8 KiB cumulative output capacity.
    pub fn new(writer: W, encoder: E) -> (created: Self)
        ensures
            created.sink() == writer,
            created.encodes_with() == encoder,
            created.output() == Seq::<u8>::empty(),
            made_with_capacity(created.output_buffer(), 8192),
    {
        Self::with_capacity(writer, encoder, DEFAULT_BUFFER_CAPACITY)
    }

    /// Create a writer with an explicit cumulative output capacity.
    pub fn with_capacity(writer: W, encoder: E, capacity: usize) -> (created: Self)
        requires
            capacity <= isize::MAX,
        ensures
            created.sink() == writer,
            created.encodes_with() == encoder,
            created.output() == Seq::<u8>::empty(),
            made_with_capacity(created.output_buffer(), capacity),
    {
        let buffer = BytesMut::with_capacity(capacity);
        assert(made_with_capacity(buffer, capacity));
        Self::with_buffer(writer, encoder, buffer)
    }

    /// Create a writer with a caller-provided cumulative output buffer.
    pub fn with_buffer(writer: W, encoder: E, buffer: BytesMut) -> (created: Self)
        ensures
            created.sink() == writer,
            created.encodes_with() == encoder,
            created.output_buffer() == buffer,
            created.output() == buffer_bytes(buffer),
    {
        Self { writer, encoder, buffer }
    }

    /// Encode one message into the cumulative output buffer.
    ///
    /// Bytes appended during a failed encoder call are rolled back.
    ///
    /// # Errors
    ///
    /// Returns the protocol encoder error.
    pub fn feed<M>(&mut self, message: M) -> (result: Result<(), E::Error>) where
        E: MessageEncoder<M>,

        requires
            E::has_room(old(self).encodes_with(), message, old(self).output()),
        ensures
            feeds(*old(self), message, *final(self), result),
    {
        let checkpoint = self.buffer.len();
        let result = self.encoder.encode(message, &mut self.buffer);
        let ghost written = buffer_bytes(self.buffer);
        if result.is_err() {
            self.buffer.truncate(checkpoint);
        }
        assert(E::encodes(
            old(self).encodes_with(),
            message,
            old(self).output(),
            self.encodes_with(),
            written,
            result,
        ));
        result
    }

    /// What a flush does next.
    pub fn flush_step(&self) -> (step: FlushStep)
        ensures
            step == next_flush_step(self.output().len()),
    {
        if self.buffer.is_empty() {
            FlushStep::FlushTransport
        } else {
            FlushStep::Write
        }
    }

    /// Takes in that the transport accepted the first `written` queued bytes, and
    /// says what the flush does next.
    ///
    /// # Errors
    ///
    /// Returns an error where the transport accepted nothing.
    pub fn on_written(&mut self, written: usize) -> (result: Result<FlushStep, NothingAccepted>)
        requires
            written <= old(self).output().len(),
        ensures
            accepts(*old(self), written, *final(self), result),
    {
        if written == 0 {
            assert(self.output().skip(0) =~= self.output());
            return Err(NothingAccepted);
        }
        let accepted = self.buffer.split_to(written);
        Ok(self.flush_step())
    }

    /// Return a shared reference to the transport.
    pub fn transport(&self) -> (transport: &W)
        ensures
            *transport == self.sink(),
    {
        &self.writer
    }

    /// Return a mutable reference to the transport.
    pub fn transport_mut(&mut self) -> (transport: &mut W)
        ensures
            *transport == old(self).sink(),
            final(self).sink() == *final(transport),
            final(self).encodes_with() == old(self).encodes_with(),
            final(self).output_buffer() == old(self).output_buffer(),
            final(self).output() == old(self).output(),
    {
        &mut self.writer
    }

    /// Return a shared reference to the encoder.
    pub fn encoder(&self) -> (encoder: &E)
        ensures
            *encoder == self.encodes_with(),
    {
        &self.encoder
    }

    /// Return a mutable reference to the encoder.
    pub fn encoder_mut(&mut self) -> (encoder: &mut E)
        ensures
            *encoder == old(self).encodes_with(),
            final(self).encodes_with() == *final(encoder),
            final(self).sink() == old(self).sink(),
            final(self).output_buffer() == old(self).output_buffer(),
            final(self).output() == old(self).output(),
    {
        &mut self.encoder
    }

    /// Return the cumulative output buffer.
    pub fn buffer(&self) -> (buffer: &BytesMut)
        ensures
            *buffer == self.output_buffer(),
            buffer_bytes(*buffer) == self.output(),
    {
        &self.buffer
    }

    /// Return the mutable cumulative output buffer.
    pub fn buffer_mut(&mut self) -> (buffer: &mut BytesMut)
        ensures
            *buffer == old(self).output_buffer(),
            buffer_bytes(*buffer) == old(self).output(),
            final(self).output_buffer() == *final(buffer),
            final(self).output() == buffer_bytes(*final(buffer)),
            final(self).sink() == old(self).sink(),
            final(self).encodes_with() == old(self).encodes_with(),
    {
        &mut self.buffer
    }

    /// Consume this writer and return its transport, encoder, and output buffer.
    pub fn into_parts(self) -> (parts: (W, E, BytesMut))
        ensures
            parts == (self.sink(), self.encodes_with(), self.output_buffer()),
    {
        (self.writer, self.encoder, self.buffer)
    }
}

/// Whatever an encoder that only appends does before it fails, the queued bytes are
/// those from before; where it succeeds they are followed by what it appended.
pub proof fn law_failed_messages_are_taken_back<W, M, E: MessageEncoder<M>>(
    before: MessageWriter<W, E>,
    message: M,
    after: MessageWriter<W, E>,
    result: Result<(), E::Error>,
)
    requires
        feeds(before, message, after, result),
        forall|written: Seq<u8>|
            #[trigger] E::encodes(
                before.encodes_with(),
                message,
                before.output(),
                after.encodes_with(),
                written,
                result,
            ) ==> before.output().is_prefix_of(written),
    ensures
        result is Err ==> after.output() == before.output(),
        result is Ok ==> before.output().is_prefix_of(after.output()),
        after.sink() == before.sink(),
{
    let written = choose|written: Seq<u8>|
        {
            &&& #[trigger] E::encodes(
                before.encodes_with(),
                message,
                before.output(),
                after.encodes_with(),
                written,
                result,
            )
            &&& after.output() == if result is Ok || written.len() < before.output().len() {
                written
            } else {
                written.take(before.output().len() as int)
            }
        };
    if result is Err {
        assert(written.take(before.output().len() as int) =~= before.output());
    }
}

/// A flush loses nothing and sends nothing twice: what the transport accepted and
/// what stays queued make up what was queued. It fails exactly if the transport
/// accepts nothing, goes on while bytes are queued, and flushes the transport
/// itself once none are.
pub proof fn law_flushes_lose_nothing<W, E>(
    before: MessageWriter<W, E>,
    written: usize,
    after: MessageWriter<W, E>,
    result: Result<FlushStep, NothingAccepted>,
)
    requires
        written <= before.output().len(),
        accepts(before, written, after, result),
    ensures
        before.output().take(written as int) + after.output() == before.output(),
        after.output().len() + written == before.output().len(),
        result is Err <==> written == 0,
        result matches Ok(step) ==> (step == FlushStep::Write <==> written < before.output().len()),
        result matches Ok(step) ==> (step == FlushStep::FlushTransport <==> written
            == before.output().len()),
        after.sink() == before.sink(),
        after.encodes_with() == before.encodes_with(),
{
    let queued = before.output();
    assert(queued.take(written as int) + queued.skip(written as int) =~= queued);
}

/// A flush writes while anything is queued.
pub proof fn law_flushes_write_while_bytes_are_queued(queued: nat)
    ensures
        queued > 0 ==> next_flush_step(queued) == FlushStep::Write,
        queued == 0 ==> next_flush_step(queued) == FlushStep::FlushTransport,
{
}

} // verus!

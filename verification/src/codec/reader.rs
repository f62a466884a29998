//! Reading messages from a byte transport.
//!
//! The transport itself is read elsewhere: [`MessageReader::poll_message`] says
//! when it has to be, and [`MessageReader::on_read`] takes in how it went.
use bytes::BytesMut;

use vstd::prelude::*;

use super::MessageDecoder;
use crate::buffer::{buffer_bytes, made_with_capacity};
use crate::text::{decimal, decimal_text, join_text, TextError};

verus! {

const DEFAULT_BUFFER_CAPACITY: usize = 8 * 1024;

/// A transport, decoder, or decode-contract error.
#[derive(Debug)]
pub enum MessageReadError<E> {
    /// The asynchronous byte transport failed.
    Io(String),
    /// The protocol decoder rejected input.
    Decoder(E),
    /// A decoder produced a message without consuming input.
    MessageWithoutProgress,
    /// A decoder consumed input before asking for more data.
    ConsumedOnNeedMore {
        /// Readable bytes before decoding.
        before: usize,
        /// Readable bytes after decoding.
        after: usize,
    },
    /// EOF left bytes that did not form a complete message.
    UnexpectedEof {
        /// Undecoded bytes remaining at EOF.
        remaining: usize,
    },
}

impl<E: TextError> TextError for MessageReadError<E> {
    open spec fn text_of(&self) -> Seq<char> {
        match self {
            Self::Io(error) => "I/O error: "@ + error@,
            Self::Decoder(error) => "decoder error: "@ + error.text_of(),
            Self::MessageWithoutProgress => "decoder produced a message without consuming input"@,
            Self::ConsumedOnNeedMore { before, after } =>
                "decoder requested more data after changing readable bytes from "@ + decimal(
                *before as nat,
            ) + " to "@ + decimal(*after as nat),
            Self::UnexpectedEof { remaining } => "unexpected EOF with "@ + decimal(
                *remaining as nat,
            ) + " undecoded bytes"@,
        }
    }

    fn to_text(&self) -> (text: String) {
        match self {
            Self::Io(error) => join_text("I/O error: ", error.as_str()),
            Self::Decoder(error) => join_text("decoder error: ", error.to_text().as_str()),
            Self::MessageWithoutProgress =>
                "decoder produced a message without consuming input".to_owned(),
            Self::ConsumedOnNeedMore { before, after } => {
                let mut text = join_text(
                    "decoder requested more data after changing readable bytes from ",
                    decimal_text(*before as u64).as_str(),
                );
                text.append(" to ");
                text.append(decimal_text(*after as u64).as_str());
                text
            },
            Self::UnexpectedEof { remaining } => {
                let mut text = join_text(
                    "unexpected EOF with ",
                    decimal_text(*remaining as u64).as_str(),
                );
                text.append(" undecoded bytes");
                text
            },
        }
    }
}

/// What a reader does next.
#[derive(Debug)]
pub enum ReadStep<M> {
    /// A message is complete.
    Message(M),
    /// The transport must be read into the buffer.
    NeedRead,
    /// The stream ended between messages.
    End,
}

/// How one decoding of `before` readable bytes, which left `after`, is judged.
pub open spec fn judgement<M, E>(
    result: Result<Option<M>, E>,
    before: nat,
    after: nat,
    eof: bool,
) -> Result<ReadStep<M>, MessageReadError<E>> {
    match result {
        Err(error) => Err(MessageReadError::Decoder(error)),
        Ok(Some(message)) => if after >= before {
            Err(MessageReadError::MessageWithoutProgress)
        } else {
            Ok(ReadStep::Message(message))
        },
        Ok(None) => if after != before {
            Err(
                MessageReadError::ConsumedOnNeedMore {
                    before: before as usize,
                    after: after as usize,
                },
            )
        } else if !eof {
            Ok(ReadStep::NeedRead)
        } else if after == 0 {
            Ok(ReadStep::End)
        } else {
            Err(MessageReadError::UnexpectedEof { remaining: after as usize })
        },
    }
}

/// Judges one decoding of `before` readable bytes, which left `after`.
pub fn judge<M, E>(result: Result<Option<M>, E>, before: usize, after: usize, eof: bool) -> (step: Result<
    ReadStep<M>,
    MessageReadError<E>,
>)
    ensures
        step == judgement(result, before as nat, after as nat, eof),
{
    match result {
        Err(error) => Err(MessageReadError::Decoder(error)),
        Ok(Some(message)) => {
            if after >= before {
                return Err(MessageReadError::MessageWithoutProgress);
            }
            Ok(ReadStep::Message(message))
        },
        Ok(None) => {
            if after != before {
                return Err(MessageReadError::ConsumedOnNeedMore { before, after });
            }
            if !eof {
                return Ok(ReadStep::NeedRead);
            }
            if after == 0 {
                return Ok(ReadStep::End);
            }
            Err(MessageReadError::UnexpectedEof { remaining: after })
        },
    }
}

/// Reads bytes into one decoder and cumulative `BytesMut`.
#[derive(Debug)]
pub struct MessageReader<R, D> {
    reader: R,
    decoder: D,
    buffer: BytesMut,
    eof: bool,
    eof_complete: bool,
}

impl<R, D> MessageReader<R, D> {
    pub closed spec fn source(&self) -> R {
        self.reader
    }

    pub closed spec fn decodes_with(&self) -> D {
        self.decoder
    }

    /// The bytes that were read and not decoded.
    pub closed spec fn input(&self) -> Seq<u8> {
        buffer_bytes(self.buffer)
    }

    pub closed spec fn input_buffer(&self) -> BytesMut {
        self.buffer
    }

    /// Whether the transport has ended.
    pub closed spec fn at_eof(&self) -> bool {
        self.eof
    }

    /// Whether the end was reached between messages.
    pub closed spec fn ended(&self) -> bool {
        self.eof_complete
    }

    /// Create a reader with the default 8 KiB cumulative input capacity.
    pub fn new(reader: R, decoder: D) -> (created: Self)
        ensures
            created.starts_with(reader, decoder, Seq::empty()),
            made_with_capacity(created.input_buffer(), 8192),
    {
        Self::with_capacity(reader, decoder, DEFAULT_BUFFER_CAPACITY)
    }

    /// Create a reader with an explicit cumulative input capacity.
    pub fn with_capacity(reader: R, decoder: D, capacity: usize) -> (created: Self)
        requires
            capacity <= isize::MAX,
        ensures
            created.starts_with(reader, decoder, Seq::empty()),
            made_with_capacity(created.input_buffer(), capacity),
    {
        let buffer = BytesMut::with_capacity(capacity);
        assert(made_with_capacity(buffer, capacity));
        Self::with_buffer(reader, decoder, buffer)
    }

    /// Create a reader with a caller-provided cumulative input buffer.
    pub fn with_buffer(reader: R, decoder: D, buffer: BytesMut) -> (created: Self)
        ensures
            created.starts_with(reader, decoder, buffer_bytes(buffer)),
            created.input_buffer() == buffer,
    {
        Self { reader, decoder, buffer, eof: false, eof_complete: false }
    }

    /// A reader whose stream has not ended.
    pub open spec fn starts_with(&self, reader: R, decoder: D, input: Seq<u8>) -> bool {
        &&& self.source() == reader
        &&& self.decodes_with() == decoder
        &&& self.input() == input
        &&& self.input() == buffer_bytes(self.input_buffer())
        &&& !self.at_eof()
        &&& !self.ended()
    }

    /// Whether a read of `read` bytes leads from `before` to `after`.
    pub open spec fn reads(before: Self, read: usize, after: Self) -> bool {
        &&& after.source() == before.source()
        &&& after.decodes_with() == before.decodes_with()
        &&& after.input_buffer() == before.input_buffer()
        &&& after.input() == before.input()
        &&& after.at_eof() == (before.at_eof() || read == 0)
        &&& after.ended() == before.ended()
    }

    /// Takes in how a read of the transport went: `read` bytes were appended to
    /// the buffer, and none means that the stream has ended.
    pub fn on_read(&mut self, read: usize)
        ensures
            Self::reads(*old(self), read, *final(self)),
    {
        if read == 0 {
            self.eof = true;
        }
    }

    /// Return a shared reference to the transport.
    pub fn transport(&self) -> (transport: &R)
        ensures
            *transport == self.source(),
    {
        &self.reader
    }

    /// Return a mutable reference to the transport.
    pub fn transport_mut(&mut self) -> (transport: &mut R)
        ensures
            *transport == old(self).source(),
            final(self).source() == *final(transport),
            final(self).decodes_with() == old(self).decodes_with(),
            final(self).input_buffer() == old(self).input_buffer(),
            final(self).input() == old(self).input(),
            final(self).at_eof() == old(self).at_eof(),
            final(self).ended() == old(self).ended(),
    {
        &mut self.reader
    }

    /// Return a shared reference to the decoder.
    pub fn decoder(&self) -> (decoder: &D)
        ensures
            *decoder == self.decodes_with(),
    {
        &self.decoder
    }

    /// Return a mutable reference to the decoder.
    pub fn decoder_mut(&mut self) -> (decoder: &mut D)
        ensures
            *decoder == old(self).decodes_with(),
            final(self).decodes_with() == *final(decoder),
            final(self).source() == old(self).source(),
            final(self).input_buffer() == old(self).input_buffer(),
            final(self).input() == old(self).input(),
            final(self).at_eof() == old(self).at_eof(),
            final(self).ended() == old(self).ended(),
    {
        &mut self.decoder
    }

    /// Return the cumulative input buffer.
    pub fn buffer(&self) -> (buffer: &BytesMut)
        ensures
            *buffer == self.input_buffer(),
            buffer_bytes(*buffer) == self.input(),
    {
        &self.buffer
    }

    /// Return the mutable cumulative input buffer.
    pub fn buffer_mut(&mut self) -> (buffer: &mut BytesMut)
        ensures
            *buffer == old(self).input_buffer(),
            buffer_bytes(*buffer) == old(self).input(),
            final(self).input_buffer() == *final(buffer),
            final(self).input() == buffer_bytes(*final(buffer)),
            final(self).source() == old(self).source(),
            final(self).decodes_with() == old(self).decodes_with(),
            final(self).at_eof() == old(self).at_eof(),
            final(self).ended() == old(self).ended(),
    {
        &mut self.buffer
    }

    /// Consume this reader and return its transport, decoder, and input buffer.
    pub fn into_parts(self) -> (parts: (R, D, BytesMut))
        ensures
            parts == (self.source(), self.decodes_with(), self.input_buffer()),
    {
        (self.reader, self.decoder, self.buffer)
    }
}

/// Whether one decoding with `result` leads from `before` to `after`: by the
/// decoder's hook for the end once the transport has ended, and by its ordinary
/// decoding before.
pub open spec fn one_decoding<R, D: MessageDecoder>(
    before: MessageReader<R, D>,
    after: MessageReader<R, D>,
    result: Result<Option<D::Message>, D::Error>,
) -> bool {
    if before.at_eof() {
        D::decodes_eof(
            before.decodes_with(),
            before.input(),
            after.decodes_with(),
            after.input(),
            result,
        )
    } else {
        D::decodes(
            before.decodes_with(),
            before.input(),
            after.decodes_with(),
            after.input(),
            result,
        )
    }
}

/// Whether one step of a reader leads from `before` to `after`. After the end
/// nothing is decoded any more.
pub open spec fn one_step<R, D: MessageDecoder>(
    before: MessageReader<R, D>,
    step: Result<ReadStep<D::Message>, MessageReadError<D::Error>>,
    after: MessageReader<R, D>,
) -> bool {
    &&& after.source() == before.source()
    &&& after.at_eof() == before.at_eof()
    &&& after.ended() == (before.ended() || step == Ok::<_, MessageReadError<D::Error>>(
        ReadStep::<D::Message>::End,
    ))
    &&& if before.ended() {
        step == Ok::<_, MessageReadError<D::Error>>(ReadStep::<D::Message>::End) && after == before
    } else {
        exists|result: Result<Option<D::Message>, D::Error>|
            {
                &&& #[trigger] one_decoding(before, after, result)
                &&& step == judgement(
                    result,
                    before.input().len(),
                    after.input().len(),
                    before.at_eof(),
                )
            }
    }
}

impl<R, D: MessageDecoder> MessageReader<R, D> {
    /// One step towards the next message: decodes what was read and says what
    /// comes next. After the end nothing is decoded any more.
    ///
    /// # Errors
    ///
    /// Returns decoder, progress-contract, or incomplete-EOF errors.
    pub fn poll_message(&mut self) -> (step: Result<
        ReadStep<D::Message>,
        MessageReadError<D::Error>,
    >)
        ensures
            one_step(*old(self), step, *final(self)),
    {
        if self.eof_complete {
            return Ok(ReadStep::End);
        }
        let before = self.buffer.len();
        let result = if self.eof {
            self.decoder.decode_eof(&mut self.buffer)
        } else {
            self.decoder.decode(&mut self.buffer)
        };
        let after = self.buffer.len();
        let ghost outcome = result;
        let step = judge(result, before, after, self.eof);
        if let Ok(ReadStep::End) = &step {
            self.eof_complete = true;
        }
        assert(one_decoding(*old(self), *self, outcome));
        step
    }
}

/// A decoding is judged by its result and by what it consumed: an error is handed
/// on; a message counts only if fewer bytes are left than before; a decoder that
/// asks for more must have left the bytes alone. It is given more until the
/// transport ends, and then the stream ends well exactly if nothing is left.
pub proof fn law_decodings_are_judged_by_their_progress<M, E>(
    result: Result<Option<M>, E>,
    before: usize,
    after: usize,
    eof: bool,
)
    ensures
        ({
            let step = judgement(result, before as nat, after as nat, eof);
            &&& result matches Err(error) ==> step == Err::<ReadStep<M>, _>(
                MessageReadError::Decoder(error),
            )
            &&& result matches Ok(Some(message)) ==> {
                &&& after < before ==> step == Ok::<_, MessageReadError<E>>(
                    ReadStep::Message(message),
                )
                &&& after >= before ==> step == Err::<ReadStep<M>, _>(
                    MessageReadError::<E>::MessageWithoutProgress,
                )
            }
            &&& result == Ok::<Option<M>, E>(None) ==> {
                &&& after != before ==> step == Err::<ReadStep<M>, _>(
                    MessageReadError::<E>::ConsumedOnNeedMore { before, after },
                )
                &&& after == before && !eof ==> step == Ok::<_, MessageReadError<E>>(
                    ReadStep::<M>::NeedRead,
                )
                &&& after == before && eof && after == 0 ==> step == Ok::<_, MessageReadError<E>>(
                    ReadStep::<M>::End,
                )
                &&& after == before && eof && after > 0 ==> step == Err::<ReadStep<M>, _>(
                    MessageReadError::<E>::UnexpectedEof { remaining: after },
                )
            }
        }),
{
}

/// Once a reader has said that its stream ended it says so for ever and leaves its
/// input alone. It says so only at the end of the transport with no input left.
pub proof fn law_ended_readers_stay_ended<R, D: MessageDecoder>(
    before: MessageReader<R, D>,
    step: Result<ReadStep<D::Message>, MessageReadError<D::Error>>,
    after: MessageReader<R, D>,
)
    requires
        one_step(before, step, after),
    ensures
        before.ended() ==> step == Ok::<_, MessageReadError<D::Error>>(
            ReadStep::<D::Message>::End,
        ) && after == before,
        !before.ended() && step == Ok::<_, MessageReadError<D::Error>>(
            ReadStep::<D::Message>::End,
        ) ==> before.at_eof() && after.input().len() == 0 && before.input().len() == 0,
        after.ended() <==> step == Ok::<_, MessageReadError<D::Error>>(
            ReadStep::<D::Message>::End,
        ) || before.ended(),
        !before.ended() && step == Ok::<_, MessageReadError<D::Error>>(
            ReadStep::<D::Message>::NeedRead,
        ) ==> !before.at_eof() && after.input().len() == before.input().len(),
        !before.ended() && step is Ok && step->Ok_0 is Message ==> after.input().len()
            < before.input().len(),
        after.source() == before.source(),
        after.at_eof() == before.at_eof(),
{
}

/// A transport has ended once a read gave no bytes, and stays so; a read that gave
/// some is no end.
pub proof fn law_empty_reads_end_the_transport<R, D>(
    before: MessageReader<R, D>,
    read: usize,
    after: MessageReader<R, D>,
)
    requires
        MessageReader::<R, D>::reads(before, read, after),
    ensures
        read == 0 ==> after.at_eof(),
        read > 0 ==> after.at_eof() == before.at_eof(),
        before.at_eof() ==> after.at_eof(),
        after.input() == before.input(),
        after.decodes_with() == before.decodes_with(),
        after.ended() == before.ended(),
{
}

} // verus!

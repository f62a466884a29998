//! Readers that give up large buffers.
use bytes::BytesMut;

use vstd::prelude::*;

use super::reader::{one_step, ReadStep};
use super::{MessageDecoder, MessageReadError, MessageReader};
use crate::buffer::{buffer_bytes, has_capacity, made_with_capacity};

verus! {

const DEFAULT_REPLACEMENT_CAPACITY: usize = 8 * 1024;

/// Rotates an empty reader buffer after decoding a large `BytesMut` message.
///
/// The decoded message keeps its existing allocation. Rotation drops the
/// reader's reference to that allocation and installs a smaller buffer for
/// subsequent reads. When unread bytes follow a large message, rotation waits
/// until later messages consume them.
#[derive(Debug)]
pub struct RotatingMessageReader<R, D> {
    reader: MessageReader<R, D>,
    rotation_threshold: usize,
    replacement_capacity: usize,
    rotation_pending: bool,
}

impl<R, D> RotatingMessageReader<R, D> {
    pub closed spec fn wrapped(&self) -> MessageReader<R, D> {
        self.reader
    }

    /// The capacity above which a message schedules a rotation.
    pub closed spec fn threshold(&self) -> usize {
        self.rotation_threshold
    }

    /// The capacity that a rotation installs.
    pub closed spec fn replacement(&self) -> usize {
        self.replacement_capacity
    }

    /// Whether a rotation waits for the buffer to be empty.
    pub closed spec fn pending(&self) -> bool {
        self.rotation_pending
    }

    /// Wrap a message reader and replace empty buffers after messages whose
    /// capacity exceeds `rotation_threshold`.
    ///
    /// Replacement buffers start with 8 KiB of capacity.
    pub fn new(reader: MessageReader<R, D>, rotation_threshold: usize) -> (created: Self)
        ensures
            created.wrapped() == reader,
            created.threshold() == rotation_threshold,
            created.replacement() == 8 * 1024,
            !created.pending(),
    {
        Self::with_replacement_capacity(reader, rotation_threshold, DEFAULT_REPLACEMENT_CAPACITY)
    }

    /// Wrap a message reader with an explicit replacement-buffer capacity.
    pub fn with_replacement_capacity(
        reader: MessageReader<R, D>,
        rotation_threshold: usize,
        replacement_capacity: usize,
    ) -> (created: Self)
        ensures
            created.wrapped() == reader,
            created.threshold() == rotation_threshold,
            created.replacement() == replacement_capacity,
            !created.pending(),
    {
        Self { reader, rotation_threshold, replacement_capacity, rotation_pending: false }
    }

    /// Return the wrapped message reader.
    pub fn inner(&self) -> (reader: &MessageReader<R, D>)
        ensures
            *reader == self.wrapped(),
    {
        &self.reader
    }

    /// Return the mutable wrapped message reader.
    pub fn inner_mut(&mut self) -> (reader: &mut MessageReader<R, D>)
        ensures
            *reader == old(self).wrapped(),
            final(self).wrapped() == *final(reader),
            final(self).threshold() == old(self).threshold(),
            final(self).replacement() == old(self).replacement(),
            final(self).pending() == old(self).pending(),
    {
        &mut self.reader
    }

    /// Consume this wrapper and return the message reader.
    pub fn into_inner(self) -> (reader: MessageReader<R, D>)
        ensures
            reader == self.wrapped(),
    {
        self.reader
    }

    /// Return the message-capacity threshold that schedules rotation.
    pub fn rotation_threshold(&self) -> (threshold: usize)
        ensures
            threshold == self.threshold(),
    {
        self.rotation_threshold
    }

    /// Return the initial capacity installed by a rotation.
    pub fn replacement_capacity(&self) -> (capacity: usize)
        ensures
            capacity == self.replacement(),
    {
        self.replacement_capacity
    }

    /// Whether a rotation waits for the buffer to be empty.
    pub fn rotation_pending(&self) -> (pending: bool)
        ensures
            pending == self.pending(),
    {
        self.rotation_pending
    }

    /// Whether `after` follows `before` once a step has left the wrapped reader as
    /// `read`, with the capacity of the message if one came: a message above the
    /// threshold schedules a rotation, and a scheduled rotation installs a buffer of
    /// the replacement capacity when no bytes are unread. Where nothing rotates, the
    /// reader stays as the step left it.
    pub open spec fn follows(
        before: Self,
        read: MessageReader<R, D>,
        message_capacity: Option<usize>,
        after: Self,
    ) -> bool {
        let due = before.due_after(message_capacity);
        &&& after.threshold() == before.threshold()
        &&& after.replacement() == before.replacement()
        &&& after.wrapped().source() == read.source()
        &&& after.wrapped().decodes_with() == read.decodes_with()
        &&& after.wrapped().input() == read.input()
        &&& after.wrapped().at_eof() == read.at_eof()
        &&& after.wrapped().ended() == read.ended()
        &&& if due && read.input().len() == 0 {
            !after.pending() && made_with_capacity(
                after.wrapped().input_buffer(),
                before.replacement(),
            )
        } else {
            after.pending() == due && after.wrapped() == read
        }
    }

    /// Whether a rotation is due once a message of this capacity, or none, has come.
    pub open spec fn due_after(&self, message_capacity: Option<usize>) -> bool {
        self.pending() || (message_capacity is Some && message_capacity->0 > self.threshold())
    }

    /// Takes in the end of a step, with the capacity of the message if one came:
    /// a large message schedules a rotation, and a scheduled rotation happens
    /// when the buffer is empty. Returns whether it did.
    pub fn rotate_after(&mut self, message_capacity: Option<usize>) -> (rotated: bool)
        requires
            old(self).replacement() <= isize::MAX,
        ensures
            Self::follows(*old(self), old(self).wrapped(), message_capacity, *final(self)),
            rotated == (old(self).due_after(message_capacity) && old(self).wrapped().input().len()
                == 0),
    {
        if let Some(capacity) = message_capacity {
            if capacity > self.rotation_threshold {
                self.rotation_pending = true;
            }
        }
        if self.rotation_pending && self.reader.buffer().is_empty() {
            let buffer = BytesMut::with_capacity(self.replacement_capacity);
            assert(made_with_capacity(buffer, self.replacement_capacity));
            *self.reader.buffer_mut() = buffer;
            self.rotation_pending = false;
            assert(self.reader.input() =~= old(self).reader.input());
            return true;
        }
        false
    }
}

/// What a step of a rotating reader does with the buffer, given how the step went.
pub open spec fn settles<R, D: MessageDecoder<Message = BytesMut>>(
    before: RotatingMessageReader<R, D>,
    read: MessageReader<R, D>,
    step: Result<ReadStep<BytesMut>, MessageReadError<D::Error>>,
    after: RotatingMessageReader<R, D>,
) -> bool {
    match step {
        Ok(ReadStep::Message(message)) => exists|capacity: usize|
            {
                &&& #[trigger] has_capacity(message, capacity)
                &&& RotatingMessageReader::<R, D>::follows(before, read, Some(capacity), after)
            },
        Ok(ReadStep::End) => RotatingMessageReader::<R, D>::follows(before, read, None, after),
        Ok(ReadStep::NeedRead) | Err(_) => {
            &&& after.wrapped() == read
            &&& after.threshold() == before.threshold()
            &&& after.replacement() == before.replacement()
            &&& after.pending() == before.pending()
        },
    }
}

impl<R, D: MessageDecoder<Message = BytesMut>> RotatingMessageReader<R, D> {
    /// One step towards the next message, rotating an empty buffer when needed.
    ///
    /// A message schedules a rotation by the capacity that its allocation has,
    /// which is never below its length.
    ///
    /// # Errors
    ///
    /// Returns decoder, progress-contract, or incomplete-EOF errors.
    pub fn poll_message(&mut self) -> (step: Result<ReadStep<BytesMut>, MessageReadError<D::Error>>)
        requires
            old(self).replacement() <= isize::MAX,
        ensures
            exists|read: MessageReader<R, D>|
                {
                    &&& #[trigger] one_step(old(self).wrapped(), step, read)
                    &&& settles(*old(self), read, step, *final(self))
                },
    {
        let step = self.reader.poll_message();
        let ghost read = self.reader;
        match &step {
            Ok(ReadStep::Message(message)) => {
                let capacity = message.capacity();
                assert(has_capacity(*message, capacity));
                let rotated = self.rotate_after(Some(capacity));
            },
            Ok(ReadStep::End) => {
                let rotated = self.rotate_after(None);
            },
            Ok(ReadStep::NeedRead) | Err(_) => {},
        }
        assert(one_step(old(self).wrapped(), step, read));
        step
    }
}

/// A message above the threshold takes effect: once it has come, either no bytes
/// are unread and the reader has a buffer of the replacement capacity with nothing
/// due any more, or the unread bytes are kept and the rotation is due.
pub proof fn law_large_messages_rotate_the_buffer<R, D: MessageDecoder<Message = BytesMut>>(
    before: RotatingMessageReader<R, D>,
    read: MessageReader<R, D>,
    message: BytesMut,
    after: RotatingMessageReader<R, D>,
)
    requires
        settles(before, read, Ok(ReadStep::Message(message)), after),
        before.pending() || buffer_bytes(message).len() > before.threshold(),
    ensures
        after.wrapped().input() == read.input(),
        read.input().len() == 0 ==> !after.pending() && made_with_capacity(
            after.wrapped().input_buffer(),
            before.replacement(),
        ),
        read.input().len() > 0 ==> after.pending() && after.wrapped() == read,
{
}

/// A buffer is kept while nothing is due: without a message above the threshold,
/// now or earlier, the reader is as the step left it. A step that needs more bytes
/// or fails never rotates, and what was due stays due; the end of the stream makes
/// up for what is.
pub proof fn law_other_steps_keep_the_buffer<R, D: MessageDecoder<Message = BytesMut>>(
    before: RotatingMessageReader<R, D>,
    read: MessageReader<R, D>,
    step: Result<ReadStep<BytesMut>, MessageReadError<D::Error>>,
    capacity: Option<usize>,
    after: RotatingMessageReader<R, D>,
)
    ensures
        RotatingMessageReader::<R, D>::follows(before, read, capacity, after) && !before.pending()
            && (capacity is None || capacity->0 <= before.threshold()) ==> after.wrapped() == read
            && !after.pending(),
        RotatingMessageReader::<R, D>::follows(before, read, capacity, after) && (before.pending()
            || (capacity is Some && capacity->0 > before.threshold())) && read.input().len() == 0
            ==> !after.pending() && made_with_capacity(
            after.wrapped().input_buffer(),
            before.replacement(),
        ),
        settles(before, read, step, after) && (step is Err || step->Ok_0 is NeedRead)
            ==> after.wrapped() == read && after.pending() == before.pending(),
        settles(before, read, step, after) && step is Ok && step->Ok_0 is End && before.pending()
            && read.input().len() == 0 ==> !after.pending() && made_with_capacity(
            after.wrapped().input_buffer(),
            before.replacement(),
        ),
        settles(before, read, step, after) ==> after.threshold() == before.threshold()
            && after.replacement() == before.replacement() && after.wrapped().input()
            == read.input(),
{
}

} // verus!

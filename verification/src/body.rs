//! Bodies of requests and responses.
//!
//! A streaming body's messages are received elsewhere:
//! [`NacelleBody::next_chunk`] says when one is needed, and
//! [`NacelleBody::on_message`] takes it in.
use bytes::Bytes;

use vstd::prelude::*;

use crate::buffer::chunk_bytes;
use crate::error::NacelleError;
use crate::memory::NacelleMemoryAllocation;

verus! {

/// [`Bytes::clone`] makes another handle on the same bytes.
pub assume_specification[ <Bytes as Clone>::clone ](chunk: &Bytes) -> (copy: Bytes)
    ensures
        chunk_bytes(copy) == chunk_bytes(*chunk),
;

/// Where the chunks of a body come from.
#[derive(Debug, Clone, Copy, PartialEq, Eq, Structural)]
enum BodySource {
    SingleChunk,
    Buffered,
    Streaming,
}

/// A message of a streaming body.
#[derive(Debug)]
pub enum TrackedBodyMessage {
    Chunk(Result<Bytes, NacelleError>),
    /// The memory that the body's chunks are held in.
    MemoryAllocation(NacelleMemoryAllocation),
}

/// What a body yields next.
#[derive(Debug)]
pub enum BodyStep {
    Chunk(Bytes),
    Failed(NacelleError),
    /// A message of the stream is needed.
    AwaitMessage,
    End,
}

/// The chunks that a body has still to give.
pub enum BodyChunks {
    Single(Option<Seq<u8>>),
    Buffered(Seq<Seq<u8>>),
    Streaming,
}

/// What a body has still to give.
pub struct BodyState {
    pub chunks: BodyChunks,
    /// How many bytes are expected.
    pub remaining: nat,
    /// The memory that is held with the body.
    pub held: Option<nat>,
}

/// The bytes of chunks.
pub open spec fn chunk_contents(chunks: Seq<Bytes>) -> Seq<Seq<u8>> {
    chunks.map_values(|chunk: Bytes| chunk_bytes(chunk))
}

/// What remains of `expected` bytes once `count` have come.
pub open spec fn left_of(expected: nat, count: nat) -> nat {
    if expected >= count {
        (expected - count) as nat
    } else {
        0
    }
}

/// Whether a body gives `step` next, and is left as `after`.
pub open spec fn yields(before: BodyState, step: BodyStep, after: BodyState) -> bool {
    match before.chunks {
        BodyChunks::Single(None) => step == BodyStep::End && after == before,
        BodyChunks::Single(Some(chunk)) => step is Chunk && chunk_bytes(step->Chunk_0) == chunk
            && after == (BodyState { chunks: BodyChunks::Single(None), remaining: 0, ..before }),
        BodyChunks::Buffered(chunks) => if chunks.len() == 0 {
            step == BodyStep::End && after == before
        } else {
            step is Chunk && chunk_bytes(step->Chunk_0) == chunks[0] && after == (BodyState {
                chunks: BodyChunks::Buffered(chunks.skip(1)),
                remaining: left_of(before.remaining, chunks[0].len()),
                ..before
            })
        },
        BodyChunks::Streaming => step == BodyStep::AwaitMessage && after == before,
    }
}

/// Whether a body that takes in `message` gives `step`, and is left as `after`.
pub open spec fn takes_in(
    before: BodyState,
    message: Option<TrackedBodyMessage>,
    step: BodyStep,
    after: BodyState,
) -> bool {
    match message {
        Some(TrackedBodyMessage::Chunk(Ok(chunk))) => step == BodyStep::Chunk(chunk) && after == (
        BodyState {
            remaining: left_of(before.remaining, chunk_bytes(chunk).len()),
            ..before
        }),
        Some(TrackedBodyMessage::Chunk(Err(error))) => step == BodyStep::Failed(error) && after
            == before,
        Some(TrackedBodyMessage::MemoryAllocation(allocation)) => step == BodyStep::AwaitMessage
            && after == (BodyState { held: Some(allocation@), ..before }),
        None => step == BodyStep::End && after == before,
    }
}

/// The body of a request or a response.
#[derive(Debug)]
pub struct NacelleBody {
    source: BodySource,
    single: Option<Bytes>,
    chunks: Vec<Bytes>,
    next_index: usize,
    remaining_bytes: usize,
    memory_allocation: Option<NacelleMemoryAllocation>,
}

impl View for NacelleBody {
    type V = BodyState;

    closed spec fn view(&self) -> BodyState {
        BodyState {
            chunks: match self.source {
                BodySource::SingleChunk => BodyChunks::Single(
                    match self.single {
                        Some(chunk) => Some(chunk_bytes(chunk)),
                        None => None,
                    },
                ),
                BodySource::Buffered => BodyChunks::Buffered(
                    chunk_contents(self.chunks@).skip(self.next_index as int),
                ),
                BodySource::Streaming => BodyChunks::Streaming,
            },
            remaining: self.remaining_bytes as nat,
            held: match self.memory_allocation {
                Some(allocation) => Some(allocation@),
                None => None,
            },
        }
    }
}

impl NacelleBody {
    #[verifier::type_invariant]
    spec fn wf(self) -> bool {
        self.next_index <= self.chunks.len()
    }

    /// A body that is streamed.
    pub fn new(remaining_bytes: usize) -> (body: Self)
        ensures
            body@ == (BodyState {
                chunks: BodyChunks::Streaming,
                remaining: remaining_bytes as nat,
                held: None,
            }),
    {
        Self {
            source: BodySource::Streaming,
            single: None,
            chunks: Vec::new(),
            next_index: 0,
            remaining_bytes,
            memory_allocation: None,
        }
    }

    /// A body without bytes.
    pub fn empty() -> (body: Self)
        ensures
            body@ == (BodyState {
                chunks: BodyChunks::Buffered(Seq::empty()),
                remaining: 0,
                held: None,
            }),
    {
        let body = Self::from_buffered(Vec::new(), 0);
        assert(body@.chunks->Buffered_0 =~= Seq::empty());
        body
    }

    /// A body of one chunk.
    pub fn bytes(chunk: Bytes) -> (body: Self)
        ensures
            body@ == (BodyState {
                chunks: if chunk_bytes(chunk).len() == 0 {
                    BodyChunks::Buffered(Seq::empty())
                } else {
                    BodyChunks::Single(Some(chunk_bytes(chunk)))
                },
                remaining: chunk_bytes(chunk).len(),
                held: None,
            }),
    {
        let remaining_bytes = chunk.len();
        if remaining_bytes == 0 {
            return Self::empty();
        }
        Self::from_single_chunk(chunk, remaining_bytes)
    }

    pub fn from_single_chunk(chunk: Bytes, remaining_bytes: usize) -> (body: Self)
        ensures
            body@ == (BodyState {
                chunks: BodyChunks::Single(Some(chunk_bytes(chunk))),
                remaining: remaining_bytes as nat,
                held: None,
            }),
    {
        Self {
            source: BodySource::SingleChunk,
            single: Some(chunk),
            chunks: Vec::new(),
            next_index: 0,
            remaining_bytes,
            memory_allocation: None,
        }
    }

    pub fn from_buffered(chunks: Vec<Bytes>, remaining_bytes: usize) -> (body: Self)
        ensures
            body@ == (BodyState {
                chunks: BodyChunks::Buffered(chunk_contents(chunks@)),
                remaining: remaining_bytes as nat,
                held: None,
            }),
    {
        proof {
            let contents = chunk_contents(chunks@);
            assert(contents.skip(0) =~= contents);
        }
        Self {
            source: BodySource::Buffered,
            single: None,
            chunks,
            next_index: 0,
            remaining_bytes,
            memory_allocation: None,
        }
    }

    /// Holds memory with the body. A body holds memory once.
    pub fn with_memory_allocation(self, allocation: NacelleMemoryAllocation) -> (body: Self)
        requires
            self@.held is None,
        ensures
            body@ == (BodyState { held: Some(allocation@), ..self@ }),
    {
        proof {
            use_type_invariant(&self);
        }
        Self { memory_allocation: Some(allocation), ..self }
    }

    /// Gives up the memory that is held with the body.
    pub fn take_memory_allocation(&mut self) -> (allocation: Option<NacelleMemoryAllocation>)
        ensures
            match allocation {
                Some(allocation) => old(self)@.held == Some(allocation@),
                None => old(self)@.held is None,
            },
            final(self)@ == (BodyState { held: None, ..old(self)@ }),
    {
        proof {
            use_type_invariant(&*self);
        }
        let mut taken: Option<NacelleMemoryAllocation> = None;
        core::mem::swap(&mut taken, &mut self.memory_allocation);
        taken
    }

    /// How many bytes are expected.
    pub fn remaining_bytes(&self) -> (bytes: usize)
        ensures
            bytes == self@.remaining,
    {
        self.remaining_bytes
    }

    /// Turns a body of at most one ready chunk into that chunk; gives any other
    /// body back. Memory that is held with the body is taken first.
    pub fn try_into_single_chunk_or_empty(self) -> (result: Result<Option<Bytes>, Self>)
        requires
            self@.held is None,
        ensures
            match self@.chunks {
                BodyChunks::Single(None) => result == Ok::<Option<Bytes>, Self>(None),
                BodyChunks::Single(Some(chunk)) => result is Ok && result->Ok_0 is Some
                    && chunk_bytes(result->Ok_0->0) == chunk,
                BodyChunks::Buffered(chunks) => if chunks.len() == 0 {
                    result == Ok::<Option<Bytes>, Self>(None)
                } else if chunks.len() == 1 {
                    result is Ok && result->Ok_0 is Some && chunk_bytes(result->Ok_0->0)
                        == chunks[0]
                } else {
                    result == Err::<Option<Bytes>, Self>(self)
                },
                BodyChunks::Streaming => result == Err::<Option<Bytes>, Self>(self),
            },
    {
        proof {
            use_type_invariant(&self);
        }
        match self.source {
            BodySource::SingleChunk => Ok(self.single),
            BodySource::Buffered => {
                let remaining: usize = self.chunks.len() - self.next_index;
                if remaining == 0 {
                    Ok(None)
                } else if remaining == 1 {
                    Ok(Some(self.chunks[self.next_index].clone()))
                } else {
                    Err(self)
                }
            },
            BodySource::Streaming => Err(self),
        }
    }

    /// What the body yields next. A body whose chunks are ready yields them in
    /// order and then ends; a streaming body needs a message.
    pub fn next_chunk(&mut self) -> (step: BodyStep)
        ensures
            yields(old(self)@, step, final(self)@),
    {
        proof {
            use_type_invariant(&*self);
        }
        match self.source {
            BodySource::SingleChunk => {
                let chunk = match &self.single {
                    Some(chunk) => chunk.clone(),
                    None => {
                        return BodyStep::End;
                    },
                };
                self.single = None;
                self.remaining_bytes = 0;
                BodyStep::Chunk(chunk)
            },
            BodySource::Buffered => {
                if self.next_index == self.chunks.len() {
                    return BodyStep::End;
                }
                let chunk = self.chunks[self.next_index].clone();
                let left: usize = self.remaining_bytes.saturating_sub(chunk.len());
                proof {
                    let contents = chunk_contents(self.chunks@);
                    assert(contents.skip(self.next_index as int).skip(1) =~= contents.skip(
                        self.next_index + 1,
                    ));
                }
                self.next_index = self.next_index + 1;
                self.remaining_bytes = left;
                BodyStep::Chunk(chunk)
            },
            BodySource::Streaming => BodyStep::AwaitMessage,
        }
    }

    /// Takes in a message of the stream, or that the stream has ended. Memory is
    /// taken in once, and another message is needed then.
    pub fn on_message(&mut self, message: Option<TrackedBodyMessage>) -> (step: BodyStep)
        requires
            old(self)@.held is Some ==> !(message matches Some(
                TrackedBodyMessage::MemoryAllocation(_),
            )),
        ensures
            takes_in(old(self)@, message, step, final(self)@),
    {
        proof {
            use_type_invariant(&*self);
        }
        match message {
            Some(TrackedBodyMessage::Chunk(Ok(chunk))) => {
                let len: usize = chunk.len();
                let left: usize = self.remaining_bytes.saturating_sub(len);
                self.remaining_bytes = left;
                BodyStep::Chunk(chunk)
            },
            Some(TrackedBodyMessage::Chunk(Err(error))) => BodyStep::Failed(error),
            Some(TrackedBodyMessage::MemoryAllocation(allocation)) => {
                self.memory_allocation = Some(allocation);
                BodyStep::AwaitMessage
            },
            None => BodyStep::End,
        }
    }
}

/// The sending side of a streaming body whose memory is tracked.
#[derive(Debug)]
pub struct TrackedBodySender<S> {
    sender: S,
    memory_allocation_sent: bool,
}

impl<S> TrackedBodySender<S> {
    pub closed spec fn channel(&self) -> S {
        self.sender
    }

    /// Whether memory was sent.
    pub closed spec fn has_sent_memory(&self) -> bool {
        self.memory_allocation_sent
    }

    pub fn new(sender: S) -> (created: Self)
        ensures
            created.channel() == sender,
            !created.has_sent_memory(),
    {
        Self { sender, memory_allocation_sent: false }
    }

    /// The channel that messages are sent through.
    pub fn sender(&self) -> (sender: &S)
        ensures
            *sender == self.channel(),
    {
        &self.sender
    }

    /// The message that sends memory, or the memory itself where some was sent
    /// already.
    pub fn memory_message(&self, allocation: NacelleMemoryAllocation) -> (result: Result<
        TrackedBodyMessage,
        NacelleMemoryAllocation,
    >)
        ensures
            result == if self.has_sent_memory() {
                Err::<TrackedBodyMessage, _>(allocation)
            } else {
                Ok(TrackedBodyMessage::MemoryAllocation(allocation))
            },
    {
        if self.memory_allocation_sent {
            return Err(allocation);
        }
        Ok(TrackedBodyMessage::MemoryAllocation(allocation))
    }

    /// Takes in that memory was sent.
    pub fn on_memory_sent(&mut self)
        ensures
            final(self).channel() == old(self).channel(),
            final(self).has_sent_memory(),
    {
        self.memory_allocation_sent = true;
    }
}

/// The sum of chunks' lengths.
pub open spec fn total_len(chunks: Seq<Seq<u8>>) -> nat
    decreases chunks.len(),
{
    if chunks.len() == 0 {
        0
    } else {
        chunks[0].len() + total_len(chunks.skip(1))
    }
}

/// What remains of `expected` bytes once all `chunks` have come.
pub open spec fn left_after(expected: nat, chunks: Seq<Seq<u8>>) -> nat
    decreases chunks.len(),
{
    if chunks.len() == 0 {
        expected
    } else {
        left_after(left_of(expected, chunks[0].len()), chunks.skip(1))
    }
}

/// A body whose chunks add up to what is expected has nothing remaining once
/// they have come.
pub proof fn law_remaining_counts_down(expected: nat, chunks: Seq<Seq<u8>>)
    ensures
        left_after(expected, chunks) == left_of(expected, total_len(chunks)),
    decreases chunks.len(),
{
    if chunks.len() > 0 {
        law_remaining_counts_down(left_of(expected, chunks[0].len()), chunks.skip(1));
    }
}

/// What has come and what remains add up to what was expected; once as much or
/// more has come, nothing remains.
pub proof fn law_come_and_remaining_add_up(expected: nat, count: nat)
    ensures
        count <= expected ==> left_of(expected, count) + count == expected,
        count >= expected ==> left_of(expected, count) == 0,
{
}

/// A streaming body hands each chunk of its stream on as it came, and counts its
/// bytes off what remains; a failure and the end of the stream are handed on and
/// count nothing, and memory is only kept.
pub proof fn law_streamed_chunks_are_handed_on(
    before: BodyState,
    message: Option<TrackedBodyMessage>,
    step: BodyStep,
    after: BodyState,
)
    requires
        takes_in(before, message, step, after),
    ensures
        after.chunks == before.chunks,
        after.remaining <= before.remaining,
        message matches Some(TrackedBodyMessage::Chunk(Ok(chunk))) ==> {
            &&& step == BodyStep::Chunk(chunk)
            &&& after.held == before.held
            &&& chunk_bytes(chunk).len() <= before.remaining ==> after.remaining + chunk_bytes(
                chunk,
            ).len() == before.remaining
            &&& chunk_bytes(chunk).len() >= before.remaining ==> after.remaining == 0
        },
        message matches Some(TrackedBodyMessage::Chunk(Err(error))) ==> step == BodyStep::Failed(
            error,
        ) && after == before,
        message matches Some(TrackedBodyMessage::MemoryAllocation(allocation)) ==> step
            == BodyStep::AwaitMessage && after.held == Some(allocation@) && after.remaining
            == before.remaining,
        message is None ==> step == BodyStep::End && after == before,
{
}

/// Whether a body that stands at `states[0]` gives `steps` in turn.
pub open spec fn gives(states: Seq<BodyState>, steps: Seq<BodyStep>) -> bool {
    &&& states.len() == steps.len() + 1
    &&& forall|i: int|
        0 <= i < steps.len() ==> yields(states[i], #[trigger] steps[i], states[i + 1])
}

/// A buffered body gives its chunks one by one in their order, each with its own
/// bytes, and from then on says that it has ended. What remains counts down by
/// what was given.
pub proof fn law_buffered_bodies_give_their_chunks_in_order(
    chunks: Seq<Seq<u8>>,
    states: Seq<BodyState>,
    steps: Seq<BodyStep>,
)
    requires
        gives(states, steps),
        states[0].chunks == BodyChunks::Buffered(chunks),
    ensures
        forall|i: int|
            0 <= i < steps.len() && i < chunks.len() ==> (#[trigger] steps[i]) is Chunk
                && chunk_bytes(steps[i]->Chunk_0) == chunks[i],
        forall|i: int| chunks.len() <= i < steps.len() ==> (#[trigger] steps[i]) is End,
        forall|i: int|
            0 <= i < states.len() ==> (#[trigger] states[i]).held == states[0].held
                && states[i].remaining <= states[0].remaining,
        forall|i: int|
            0 <= i < steps.len() && i < chunks.len() && chunks[i].len() <= (
            #[trigger] states[i]).remaining ==> states[i + 1].remaining + chunks[i].len()
                == states[i].remaining,
        forall|i: int|
            0 <= i < steps.len() && i < chunks.len() && chunks[i].len() >= (
            #[trigger] states[i]).remaining ==> states[i + 1].remaining == 0,
    decreases steps.len(),
{
    if steps.len() > 0 {
        let earlier = steps.drop_last();
        let before = states.drop_last();
        assert forall|i: int| 0 <= i < earlier.len() implies yields(
            before[i],
            #[trigger] earlier[i],
            before[i + 1],
        ) by {
            assert(earlier[i] == steps[i]);
        }
        law_buffered_bodies_give_their_chunks_in_order(chunks, before, earlier);
        lemma_chunks_left(chunks, before, earlier);
        let last = steps.len() - 1;
        assert(yields(states[last], steps[last], states[last + 1]));
        assert(before[last] == states[last]);
        assert forall|i: int| 0 <= i < steps.len() && i < chunks.len() implies (
        #[trigger] steps[i]) is Chunk && chunk_bytes(steps[i]->Chunk_0) == chunks[i] by {
            if i < last {
                assert(earlier[i] == steps[i]);
            }
        }
        assert forall|i: int| chunks.len() <= i < steps.len() implies (
        #[trigger] steps[i]) is End by {
            if i < last {
                assert(earlier[i] == steps[i]);
            }
        }
        assert forall|i: int| 0 <= i < states.len() implies (#[trigger] states[i]).held
            == states[0].held && states[i].remaining <= states[0].remaining by {
            if i <= last {
                assert(before[i] == states[i]);
            }
        }
        assert forall|i: int|
            0 <= i < steps.len() && i < chunks.len() && chunks[i].len() <= (
            #[trigger] states[i]).remaining implies states[i + 1].remaining + chunks[i].len()
            == states[i].remaining by {
            if i < last {
                assert(before[i] == states[i]);
            }
        }
        assert forall|i: int|
            0 <= i < steps.len() && i < chunks.len() && chunks[i].len() >= (
            #[trigger] states[i]).remaining implies states[i + 1].remaining == 0 by {
            if i < last {
                assert(before[i] == states[i]);
            }
        }
    }
}

/// What a buffered body has still to give.
proof fn lemma_chunks_left(chunks: Seq<Seq<u8>>, states: Seq<BodyState>, steps: Seq<BodyStep>)
    requires
        gives(states, steps),
        states[0].chunks == BodyChunks::Buffered(chunks),
    ensures
        states.last().chunks == BodyChunks::Buffered(
            chunks.skip(
                if steps.len() <= chunks.len() {
                    steps.len() as int
                } else {
                    chunks.len() as int
                },
            ),
        ),
    decreases steps.len(),
{
    if steps.len() == 0 {
        assert(chunks.skip(0) =~= chunks);
    } else {
        let earlier = steps.drop_last();
        let before = states.drop_last();
        assert forall|i: int| 0 <= i < earlier.len() implies yields(
            before[i],
            #[trigger] earlier[i],
            before[i + 1],
        ) by {
            assert(earlier[i] == steps[i]);
        }
        lemma_chunks_left(chunks, before, earlier);
        let last = steps.len() - 1;
        assert(yields(states[last], steps[last], states[last + 1]));
        if last < chunks.len() {
            assert(chunks.skip(last).skip(1) =~= chunks.skip(last + 1));
        }
    }
}

/// A body of one chunk gives it once, and a streaming body has nothing to give
/// until a message comes.
pub proof fn law_single_chunks_are_given_once(
    before: BodyState,
    step: BodyStep,
    after: BodyState,
)
    requires
        yields(before, step, after),
    ensures
        after.held == before.held,
        before.chunks matches BodyChunks::Single(Some(chunk)) ==> step is Chunk && chunk_bytes(
            step->Chunk_0,
        ) == chunk && after.chunks == BodyChunks::Single(None) && after.remaining == 0,
        before.chunks == BodyChunks::Single(None) ==> step is End && after == before,
        before.chunks is Streaming ==> step is AwaitMessage && after == before,
{
}

/// A body expects as many bytes as it holds, or as many as it is told; it gives the
/// chunks that it was made of, and starts out without memory.
pub proof fn law_bodies_are_made_of_their_chunks(
    chunk: Bytes,
    whole: NacelleBody,
    chunks: Vec<Bytes>,
    count: usize,
    buffered: NacelleBody,
    streamed: NacelleBody,
)
    requires
        call_ensures(NacelleBody::bytes, (chunk,), whole),
        call_ensures(NacelleBody::from_buffered, (chunks, count), buffered),
        call_ensures(NacelleBody::new, (count,), streamed),
    ensures
        whole@.remaining == chunk_bytes(chunk).len(),
        chunk_bytes(chunk).len() > 0 ==> whole@.chunks == BodyChunks::Single(
            Some(chunk_bytes(chunk)),
        ),
        buffered@.remaining == count,
        buffered@.chunks matches BodyChunks::Buffered(own) && own.len() == chunks@.len()
            && forall|i: int|
            0 <= i < own.len() ==> #[trigger] own[i] == chunk_bytes(chunks@[i]),
        streamed@.remaining == count,
        streamed@.chunks is Streaming,
        whole@.held is None,
        buffered@.held is None,
        streamed@.held is None,
{
}

/// A body of at most one ready chunk becomes that chunk, and any other is given back
/// as it is.
pub proof fn law_single_chunks_are_taken_out(
    body: NacelleBody,
    result: Result<Option<Bytes>, NacelleBody>,
)
    requires
        call_ensures(NacelleBody::try_into_single_chunk_or_empty, (body,), result),
    ensures
        body@.chunks is Streaming ==> result == Err::<Option<Bytes>, _>(body),
        body@.chunks matches BodyChunks::Single(Some(chunk)) ==> result matches Ok(Some(taken))
            && chunk_bytes(taken) == chunk,
        body@.chunks == BodyChunks::Single(None) ==> result matches Ok(None),
        body@.chunks matches BodyChunks::Buffered(chunks) ==> {
            &&& chunks.len() == 0 ==> (result matches Ok(None))
            &&& chunks.len() == 1 ==> (result matches Ok(Some(taken)) && chunk_bytes(taken)
                == chunks[0])
            &&& chunks.len() > 1 ==> result == Err::<Option<Bytes>, _>(body)
        },
{
}

/// Memory is sent with a body once: a sender that has sent some hands further memory
/// back.
pub proof fn law_memory_is_sent_once<S>(
    sender: TrackedBodySender<S>,
    allocation: NacelleMemoryAllocation,
    result: Result<TrackedBodyMessage, NacelleMemoryAllocation>,
)
    requires
        call_ensures(TrackedBodySender::<S>::memory_message, (&sender, allocation), result),
    ensures
        sender.has_sent_memory() ==> result == Err::<TrackedBodyMessage, _>(allocation),
        !sender.has_sent_memory() ==> result == Ok::<_, NacelleMemoryAllocation>(
            TrackedBodyMessage::MemoryAllocation(allocation),
        ),
{
}

} // verus!

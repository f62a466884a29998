//! Moving bodies between the transport and a handler, within their limits.
//!
//! The frames of a request body are read elsewhere: [`BodyPump`] says what has to
//! be done next and takes in how it went.
use bytes::Bytes;

use vstd::prelude::*;

use crate::buffer::chunk_bytes;
use crate::error::NacelleError;
use crate::memory::NacelleMemoryAllocation;
use crate::telemetry::event::NacelleTelemetryEventKind;
use crate::telemetry::metric::{change_if, changes, counted, no_updates, MetricUpdate};
use crate::telemetry::recorder::{event_of, transport_label};
use crate::telemetry::{NacelleTelemetry, NacelleTelemetryObserver};
use crate::transport::NacelleTransport;

verus! {

/// The announced length of a body, where this machine can count it.
pub fn body_len_hint(upper: Option<u64>) -> (hint: Option<usize>)
    ensures
        hint == match upper {
            Some(bytes) => if bytes <= usize::MAX {
                Some(bytes as usize)
            } else {
                None
            },
            None => None,
        },
{
    match upper {
        Some(bytes) => if bytes <= usize::MAX as u64 {
            Some(bytes as usize)
        } else {
            None
        },
        None => None,
    }
}

/// Whether a request is known to have no body.
pub fn incoming_body_is_empty(body_len_hint: Option<usize>) -> (empty: bool)
    ensures
        empty == (body_len_hint == Some(0usize)),
{
    matches!(body_len_hint, Some(0))
}

/// What the pump does next.
#[derive(Debug)]
pub enum PumpStep {
    /// Ask for memory for the announced body.
    Allocate(usize),
    /// Hand the memory to the receiver of the body.
    SendMemory(NacelleMemoryAllocation),
    /// Ask for a permit to stream.
    AcquireStreamingTask,
    /// Read the next frame.
    ReadFrame,
    /// Hand a chunk to the receiver of the body.
    Forward(Bytes),
    /// Hand an error to the receiver of the body, and stop.
    Fail(NacelleError),
    /// Stop.
    Stop,
}

/// How the read of a frame ended.
#[derive(Debug)]
pub enum FrameEvent {
    Data(Bytes),
    /// A frame without data.
    Other,
    Failed(String),
    End,
    TimedOut,
}

/// The state of one request body on its way.
#[derive(Debug)]
pub struct BodyPump {
    hint: Option<usize>,
    max_request_body_bytes: usize,
    body_bytes: usize,
}

/// The error of a body that is too large.
pub open spec fn request_too_large() -> NacelleError {
    NacelleError::ResourceLimit("request_body_bytes")
}

impl BodyPump {
    /// The announced length.
    pub closed spec fn announced(&self) -> Option<usize> {
        self.hint
    }

    /// The most bytes that a body may have.
    pub closed spec fn limit(&self) -> usize {
        self.max_request_body_bytes
    }

    /// The bytes that were forwarded.
    pub closed spec fn moved(&self) -> nat {
        self.body_bytes as nat
    }

    /// No more bytes were forwarded than the limit allows.
    pub open spec fn wf(&self) -> bool {
        self.moved() <= self.limit()
    }

    pub fn new(hint: Option<usize>, max_request_body_bytes: usize) -> (pump: Self)
        ensures
            pump.wf(),
            pump.announced() == hint,
            pump.limit() == max_request_body_bytes,
            pump.moved() == 0,
    {
        Self { hint, max_request_body_bytes, body_bytes: 0 }
    }

    /// The first step: a body that announces too much fails at once, one that
    /// announces its length gets memory, and any other is streamed.
    pub fn start(&self) -> (step: PumpStep)
        ensures
            step == match self.announced() {
                Some(bytes) => if bytes > self.limit() {
                    PumpStep::Fail(request_too_large())
                } else {
                    PumpStep::Allocate(bytes)
                },
                None => PumpStep::AcquireStreamingTask,
            },
    {
        match self.hint {
            Some(bytes) => if bytes > self.max_request_body_bytes {
                PumpStep::Fail(NacelleError::ResourceLimit("request_body_bytes"))
            } else {
                PumpStep::Allocate(bytes)
            },
            None => PumpStep::AcquireStreamingTask,
        }
    }

    /// After memory was asked for.
    pub fn on_memory(&self, result: Result<NacelleMemoryAllocation, NacelleError>) -> (step: PumpStep)
        ensures
            step == match result {
                Ok(allocation) => PumpStep::SendMemory(allocation),
                Err(error) => PumpStep::Fail(error),
            },
    {
        match result {
            Ok(allocation) => PumpStep::SendMemory(allocation),
            Err(error) => PumpStep::Fail(error),
        }
    }

    /// After memory was offered to the receiver.
    pub fn on_memory_sent(&self, received: bool) -> (step: PumpStep)
        ensures
            step == (if received {
                PumpStep::AcquireStreamingTask
            } else {
                PumpStep::Stop
            }),
    {
        if received {
            PumpStep::AcquireStreamingTask
        } else {
            PumpStep::Stop
        }
    }

    /// After a permit to stream was asked for.
    pub fn on_streaming_task(&self, result: Result<(), NacelleError>) -> (step: PumpStep)
        ensures
            step == match result {
                Ok(_) => PumpStep::ReadFrame,
                Err(error) => PumpStep::Fail(error),
            },
    {
        match result {
            Ok(_) => PumpStep::ReadFrame,
            Err(error) => PumpStep::Fail(error),
        }
    }

    /// After a frame was read. Data beyond the limit is not forwarded.
    pub fn on_frame<Observer: NacelleTelemetryObserver>(
        &mut self,
        event: FrameEvent,
        telemetry: &mut NacelleTelemetry<Observer>,
    ) -> (next: (PumpStep, Vec<MetricUpdate>))
        requires
            old(self).wf(),
        ensures
            moves(*old(self), event, next.0, *final(self)),
            if event is TimedOut {
                NacelleTelemetry::<Observer>::told(
                    *old(telemetry),
                    event_of(
                        NacelleTelemetryEventKind::Timeout,
                        Some(NacelleTransport::named("http")),
                        Some("http_body_read"),
                        1,
                    ),
                    *final(telemetry),
                ) && changes(next.1@) == seq![
                    counted(
                        "nacelle.timeouts",
                        seq![("transport"@, "http"@), ("operation"@, "http_body_read"@)],
                        1,
                    ),
                ]
            } else {
                *final(telemetry) == *old(telemetry) && changes(next.1@).len() == 0
            },
    {
        match event {
            FrameEvent::Data(data) => {
                if let Some(total) = self.body_bytes.checked_add(data.len()) {
                    if total <= self.max_request_body_bytes {
                        self.body_bytes = total;
                        return (PumpStep::Forward(data), no_updates());
                    }
                }
                (PumpStep::Fail(NacelleError::ResourceLimit("request_body_bytes")), no_updates())
            },
            FrameEvent::Other => (PumpStep::ReadFrame, no_updates()),
            FrameEvent::Failed(error) => (
                PumpStep::Fail(NacelleError::protocol(error)),
                no_updates(),
            ),
            FrameEvent::End => (PumpStep::Stop, no_updates()),
            FrameEvent::TimedOut => {
                let updates = telemetry.timeout(NacelleTransport::new("http"), "http_body_read");
                (PumpStep::Fail(NacelleError::Timeout("http_body_read")), updates)
            },
        }
    }

    /// After a chunk was offered to the receiver.
    pub fn on_forwarded(&self, received: bool) -> (step: PumpStep)
        ensures
            step == (if received {
                PumpStep::ReadFrame
            } else {
                PumpStep::Stop
            }),
    {
        if received {
            PumpStep::ReadFrame
        } else {
            PumpStep::Stop
        }
    }

    /// The bytes that were forwarded.
    pub fn body_bytes(&self) -> (bytes: usize)
        ensures
            bytes == self.moved(),
    {
        self.body_bytes
    }
}

/// Whether a pump that reads a frame goes on with `step`, and is left as `after`.
pub open spec fn moves(
    before: BodyPump,
    event: FrameEvent,
    step: PumpStep,
    after: BodyPump,
) -> bool {
    &&& after.wf()
    &&& after.announced() == before.announced()
    &&& after.limit() == before.limit()
    &&& match event {
        FrameEvent::Data(data) => {
            let total = before.moved() + chunk_bytes(data).len();
            if total <= before.limit() {
                step == PumpStep::Forward(data) && after.moved() == total
            } else {
                step == PumpStep::Fail(request_too_large()) && after.moved() == before.moved()
            }
        },
        FrameEvent::Other => step == PumpStep::ReadFrame && after.moved() == before.moved(),
        FrameEvent::Failed(error) => step == PumpStep::Fail(NacelleError::Protocol(error))
            && after.moved() == before.moved(),
        FrameEvent::End => step == PumpStep::Stop && after.moved() == before.moved(),
        FrameEvent::TimedOut => step == PumpStep::Fail(NacelleError::Timeout("http_body_read"))
            && after.moved() == before.moved(),
    }
}

/// The bytes of one response body as it is sent.
#[derive(Debug)]
pub struct ResponseMeter {
    response_body_bytes: usize,
    max_response_body_bytes: usize,
}

impl ResponseMeter {
    /// The bytes that were let through.
    pub closed spec fn sent(&self) -> nat {
        self.response_body_bytes as nat
    }

    /// The most bytes that a body may have.
    pub closed spec fn limit(&self) -> usize {
        self.max_response_body_bytes
    }

    /// No more bytes were let through than the limit allows.
    pub open spec fn wf(&self) -> bool {
        self.sent() <= self.limit()
    }

    pub fn new(max_response_body_bytes: usize) -> (meter: Self)
        ensures
            meter.wf(),
            meter.sent() == 0,
            meter.limit() == max_response_body_bytes,
    {
        Self { response_body_bytes: 0, max_response_body_bytes }
    }

    /// Lets a chunk through, if the body stays within its limit.
    pub fn on_chunk(&mut self, chunk: Bytes) -> (result: Result<Bytes, NacelleError>)
        requires
            old(self).wf(),
        ensures
            passes(*old(self), chunk, result, *final(self)),
    {
        if let Some(total) = self.response_body_bytes.checked_add(chunk.len()) {
            if total <= self.max_response_body_bytes {
                self.response_body_bytes = total;
                return Ok(chunk);
            }
        }
        Err(NacelleError::ResourceLimit("response_body_bytes"))
    }

    /// Reports the bytes that were let through, once the body is done with.
    pub fn finish<Observer: NacelleTelemetryObserver>(
        self,
        telemetry: &mut NacelleTelemetry<Observer>,
    ) -> (updates: Vec<MetricUpdate>)
        ensures
            if self.sent() == 0 {
                *final(telemetry) == *old(telemetry)
            } else {
                NacelleTelemetry::<Observer>::told(
                    *old(telemetry),
                    event_of(
                        NacelleTelemetryEventKind::ResponseBodyBytes,
                        Some(NacelleTransport::named("http")),
                        None,
                        self.sent() as u64,
                    ),
                    *final(telemetry),
                )
            },
            changes(updates@) == change_if(
                self.sent() != 0 && old(telemetry).configured().request_metrics.byte_counts,
                counted(
                    "nacelle.response.bytes",
                    transport_label(NacelleTransport::named("http")),
                    self.sent(),
                ),
            ),
    {
        telemetry.response_body_bytes(NacelleTransport::new("http"), self.response_body_bytes)
    }
}

/// Whether a meter that is asked for `chunk` gives this result, and is left as
/// `after`.
pub open spec fn passes(
    before: ResponseMeter,
    chunk: Bytes,
    result: Result<Bytes, NacelleError>,
    after: ResponseMeter,
) -> bool {
    let total = before.sent() + chunk_bytes(chunk).len();
    &&& after.wf()
    &&& after.limit() == before.limit()
    &&& if total <= before.limit() {
        result == Ok::<_, NacelleError>(chunk) && after.sent() == total
    } else {
        result == Err::<Bytes, _>(NacelleError::ResourceLimit("response_body_bytes"))
            && after.sent() == before.sent()
    }
}

/// The bytes that a pump forwards of chunks that arrive one after the other: the
/// chunks before the first that would exceed the limit.
pub open spec fn forwarded_total(moved: nat, limit: nat, chunks: Seq<nat>) -> nat
    decreases chunks.len(),
{
    if chunks.len() == 0 || moved + chunks[0] > limit {
        moved
    } else {
        forwarded_total(moved + chunks[0], limit, chunks.skip(1))
    }
}

/// Whatever arrives, no body exceeds its limit.
pub proof fn law_bodies_stay_within_their_limit(moved: nat, limit: nat, chunks: Seq<nat>)
    requires
        moved <= limit,
    ensures
        forwarded_total(moved, limit, chunks) <= limit,
    decreases chunks.len(),
{
    if chunks.len() > 0 && moved + chunks[0] <= limit {
        law_bodies_stay_within_their_limit(moved + chunks[0], limit, chunks.skip(1));
    }
}

/// Data is handed on as it came exactly while the body stays within its limit, and
/// is then counted; the first data beyond it fails the body. Frames without data
/// are passed over, the end stops the pump, and an error or a timeout fails it.
pub proof fn law_frames_are_forwarded_within_the_limit(
    before: BodyPump,
    event: FrameEvent,
    step: PumpStep,
    after: BodyPump,
)
    requires
        moves(before, event, step, after),
    ensures
        event matches FrameEvent::Data(data) ==> {
            let len = chunk_bytes(data).len();
            &&& before.moved() + len <= before.limit() ==> step == PumpStep::Forward(data)
                && after.moved() == before.moved() + len
            &&& before.moved() + len > before.limit() ==> step == PumpStep::Fail(
                NacelleError::ResourceLimit("request_body_bytes"),
            ) && after.moved() == before.moved()
        },
        !(event is Data) ==> after.moved() == before.moved(),
        event is Other ==> step is ReadFrame,
        event is End ==> step is Stop,
        event matches FrameEvent::Failed(error) ==> step == PumpStep::Fail(
            NacelleError::Protocol(error),
        ),
        event is TimedOut ==> step == PumpStep::Fail(NacelleError::Timeout("http_body_read")),
        after.limit() == before.limit(),
        after.announced() == before.announced(),
        after.moved() <= after.limit(),
{
}

/// A body that announces more than its limit fails before anything is read, one
/// that announces as much or less gets memory for just that, and one that announces
/// nothing is streamed; a new pump has moved nothing.
pub proof fn law_announced_bodies_are_checked_first(
    hint: Option<usize>,
    limit: usize,
    pump: BodyPump,
    step: PumpStep,
)
    requires
        call_ensures(BodyPump::new, (hint, limit), pump),
        call_ensures(BodyPump::start, (&pump,), step),
    ensures
        pump.moved() == 0,
        pump.limit() == limit,
        hint is None ==> step is AcquireStreamingTask,
        hint matches Some(bytes) ==> {
            &&& bytes > limit ==> step == PumpStep::Fail(
                NacelleError::ResourceLimit("request_body_bytes"),
            )
            &&& bytes <= limit ==> step == PumpStep::Allocate(bytes)
        },
{
}

/// Each step of a pump leads to the next one where it went well: memory is handed to
/// the receiver, then a permit is asked for, then frames are read, one after each
/// that was received. Where it did not, the pump fails with the error that came, or
/// stops because nobody receives.
pub proof fn law_pumps_go_on_while_all_is_well(
    pump: BodyPump,
    memory: Result<NacelleMemoryAllocation, NacelleError>,
    after_memory: PumpStep,
    received: bool,
    after_sending: PumpStep,
    task: Result<(), NacelleError>,
    after_task: PumpStep,
    after_chunk: PumpStep,
)
    requires
        call_ensures(BodyPump::on_memory, (&pump, memory), after_memory),
        call_ensures(BodyPump::on_memory_sent, (&pump, received), after_sending),
        call_ensures(BodyPump::on_streaming_task, (&pump, task), after_task),
        call_ensures(BodyPump::on_forwarded, (&pump, received), after_chunk),
    ensures
        memory matches Ok(allocation) ==> after_memory == PumpStep::SendMemory(allocation),
        memory matches Err(error) ==> after_memory == PumpStep::Fail(error),
        received ==> after_sending is AcquireStreamingTask && after_chunk is ReadFrame,
        !received ==> after_sending is Stop && after_chunk is Stop,
        task is Ok ==> after_task is ReadFrame,
        task matches Err(error) ==> after_task == PumpStep::Fail(error),
{
}

/// A response's chunk is let through as it is exactly while the body stays within
/// its limit, and is then counted; the first beyond it fails and counts nothing.
pub proof fn law_responses_are_sent_within_their_limit(
    before: ResponseMeter,
    chunk: Bytes,
    result: Result<Bytes, NacelleError>,
    after: ResponseMeter,
)
    requires
        passes(before, chunk, result, after),
    ensures
        before.sent() + chunk_bytes(chunk).len() <= before.limit() ==> result == Ok::<
            _,
            NacelleError,
        >(chunk) && after.sent() == before.sent() + chunk_bytes(chunk).len(),
        before.sent() + chunk_bytes(chunk).len() > before.limit() ==> result == Err::<Bytes, _>(
            NacelleError::ResourceLimit("response_body_bytes"),
        ) && after.sent() == before.sent(),
        after.limit() == before.limit(),
        after.sent() <= after.limit(),
{
}

/// The sum of numbers.
pub open spec fn sum_of(chunks: Seq<nat>) -> nat
    decreases chunks.len(),
{
    if chunks.len() == 0 {
        0
    } else {
        chunks[0] + sum_of(chunks.skip(1))
    }
}

/// A body within its limit is forwarded whole, in however many chunks it comes.
pub proof fn law_bodies_within_their_limit_are_forwarded_whole(
    moved: nat,
    limit: nat,
    chunks: Seq<nat>,
)
    requires
        moved + sum_of(chunks) <= limit,
    ensures
        forwarded_total(moved, limit, chunks) == moved + sum_of(chunks),
    decreases chunks.len(),
{
    if chunks.len() > 0 {
        law_bodies_within_their_limit_are_forwarded_whole(
            moved + chunks[0],
            limit,
            chunks.skip(1),
        );
    }
}

/// The announced length is taken as it is where it can be counted. A request is
/// without a body only if it announces none.
pub proof fn law_announced_lengths_are_taken_as_they_are(
    upper: Option<u64>,
    hint: Option<usize>,
    empty: bool,
)
    requires
        call_ensures(body_len_hint, (upper,), hint),
        call_ensures(incoming_body_is_empty, (hint,), empty),
    ensures
        upper matches Some(bytes) ==> (bytes <= usize::MAX ==> hint == Some(bytes as usize)),
        upper matches Some(bytes) ==> (bytes > usize::MAX ==> hint is None),
        upper is None ==> hint is None,
        empty <==> upper == Some(0u64),
{
}

} // verus!

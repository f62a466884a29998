//! The low-cardinality events that are emitted, and who receives them. These
//! types are independent of any metrics backend.
use vstd::prelude::*;

use crate::error::NacelleError;
use crate::transport::NacelleTransport;

verus! {

/// What happened.
#[derive(Debug, Clone, Copy, PartialEq, Eq, Structural)]
pub enum NacelleTelemetryEventKind {
    ListenerConfigured,
    ListenerFailed,
    ConnectionOpened,
    ConnectionRejected,
    RequestRejected,
    RequestCompleted,
    RequestFailed,
    ResponseBodyBytes,
    Timeout,
    ShutdownRequested,
    ListenerStoppedAccepting,
    DrainStarted,
    DrainCompleted,
    DrainTimedOut,
    ConnectionsAborted,
}

/// One event.
#[derive(Debug, Clone, Copy)]
pub struct NacelleTelemetryEvent {
    pub kind: NacelleTelemetryEventKind,
    pub transport: Option<NacelleTransport>,
    pub reason: Option<&'static str>,
    pub count: u64,
}

/// Receives events as they happen.
pub trait NacelleTelemetryObserver: Sized {
    /// Whether the observer does anything with events.
    const ENABLED: bool;

    /// Whether an event may turn the observer `before` into `after`.
    ///
    /// An implementation that does not say leaves it open.
    open spec fn observes(before: Self, event: NacelleTelemetryEvent, after: Self) -> bool {
        true
    }

    /// Takes in one event.
    fn record(&mut self, event: NacelleTelemetryEvent)
        ensures
            Self::observes(*old(self), event, *final(self)),
    ;
}

/// An observer that ignores every event.
#[derive(Debug, Clone, Copy)]
pub struct NoopObserver;

impl NacelleTelemetryObserver for NoopObserver {
    const ENABLED: bool = false;

    open spec fn observes(before: Self, event: NacelleTelemetryEvent, after: Self) -> bool {
        after == before
    }

    fn record(&mut self, event: NacelleTelemetryEvent) {
    }
}

/// An observer that keeps every event.
#[derive(Debug)]
pub struct NacelleInMemoryObserver {
    events: Vec<NacelleTelemetryEvent>,
}

impl View for NacelleInMemoryObserver {
    type V = Seq<NacelleTelemetryEvent>;

    closed spec fn view(&self) -> Seq<NacelleTelemetryEvent> {
        self.events@
    }
}

impl NacelleInMemoryObserver {
    pub fn new() -> (observer: Self)
        ensures
            observer@ == Seq::<NacelleTelemetryEvent>::empty(),
    {
        Self { events: Vec::new() }
    }

    /// The events so far, in order.
    pub fn events(&self) -> (events: &Vec<NacelleTelemetryEvent>)
        ensures
            events@ == self@,
    {
        &self.events
    }
}

impl NacelleTelemetryObserver for NacelleInMemoryObserver {
    const ENABLED: bool = true;

    open spec fn observes(before: Self, event: NacelleTelemetryEvent, after: Self) -> bool {
        after@ == before@.push(event)
    }

    fn record(&mut self, event: NacelleTelemetryEvent) {
        self.events.push(event);
    }
}

/// Two observers, one told after the other.
#[derive(Debug)]
pub struct CompositeObserver<First, Second> {
    first: First,
    second: Second,
}

impl<First, Second> CompositeObserver<First, Second> {
    pub closed spec fn parts(&self) -> (First, Second) {
        (self.first, self.second)
    }

    pub fn new(first: First, second: Second) -> (observer: Self)
        ensures
            observer.parts() == (first, second),
    {
        Self { first, second }
    }

    pub fn first(&self) -> (first: &First)
        ensures
            *first == self.parts().0,
    {
        &self.first
    }

    pub fn second(&self) -> (second: &Second)
        ensures
            *second == self.parts().1,
    {
        &self.second
    }
}

impl<First, Second> NacelleTelemetryObserver for CompositeObserver<First, Second> where
    First: NacelleTelemetryObserver,
    Second: NacelleTelemetryObserver,
 {
    const ENABLED: bool = First::ENABLED || Second::ENABLED;

    open spec fn observes(before: Self, event: NacelleTelemetryEvent, after: Self) -> bool {
        &&& First::observes(before.parts().0, event, after.parts().0)
        &&& Second::observes(before.parts().1, event, after.parts().1)
    }

    fn record(&mut self, event: NacelleTelemetryEvent) {
        self.first.record(event);
        self.second.record(event);
    }
}

/// Receives events through a sink that is chosen where the process is set up.
pub trait NacelleTelemetrySink: Sized {
    /// Whether an event may turn the sink `before` into `after`.
    ///
    /// An implementation that does not say leaves it open.
    open spec fn takes(before: Self, event: NacelleTelemetryEvent, after: Self) -> bool {
        true
    }

    /// Takes in one event.
    fn record(&mut self, event: NacelleTelemetryEvent)
        ensures
            Self::takes(*old(self), event, *final(self)),
    ;
}

/// A sink that keeps every event.
#[derive(Debug)]
pub struct NacelleInMemoryTelemetrySink {
    events: Vec<NacelleTelemetryEvent>,
}

impl View for NacelleInMemoryTelemetrySink {
    type V = Seq<NacelleTelemetryEvent>;

    closed spec fn view(&self) -> Seq<NacelleTelemetryEvent> {
        self.events@
    }
}

impl NacelleInMemoryTelemetrySink {
    pub fn new() -> (sink: Self)
        ensures
            sink@ == Seq::<NacelleTelemetryEvent>::empty(),
    {
        Self { events: Vec::new() }
    }

    /// The events so far, in order.
    pub fn events(&self) -> (events: &Vec<NacelleTelemetryEvent>)
        ensures
            events@ == self@,
    {
        &self.events
    }
}

impl NacelleTelemetrySink for NacelleInMemoryTelemetrySink {
    open spec fn takes(before: Self, event: NacelleTelemetryEvent, after: Self) -> bool {
        after@ == before@.push(event)
    }

    fn record(&mut self, event: NacelleTelemetryEvent) {
        self.events.push(event);
    }
}

/// The reason that an event gives for a failure.
pub open spec fn reason_of(error: NacelleError) -> Option<&'static str> {
    match error {
        NacelleError::ResourceLimit(reason) => Some(reason),
        NacelleError::Timeout(reason) => Some(reason),
        NacelleError::InvalidFrame(reason) => Some(reason),
        NacelleError::FrameTooLarge { .. } => Some("frame_too_large"),
        NacelleError::UnexpectedEof => Some("unexpected_eof"),
        NacelleError::ConnectionClosed => Some("connection_closed"),
        NacelleError::MissingProtocol => Some("missing_protocol"),
        NacelleError::Io(_) => Some("io"),
        NacelleError::Protocol(_) => Some("protocol"),
        NacelleError::Handler(_) => Some("handler"),
        NacelleError::Join(_) => Some("join"),
    }
}

/// The reason that an event gives for a failure.
pub fn error_reason(error: &NacelleError) -> (reason: Option<&'static str>)
    ensures
        reason == reason_of(*error),
{
    match error {
        NacelleError::ResourceLimit(reason) => Some(reason),
        NacelleError::Timeout(reason) => Some(reason),
        NacelleError::InvalidFrame(reason) => Some(reason),
        NacelleError::FrameTooLarge { .. } => Some("frame_too_large"),
        NacelleError::UnexpectedEof => Some("unexpected_eof"),
        NacelleError::ConnectionClosed => Some("connection_closed"),
        NacelleError::MissingProtocol => Some("missing_protocol"),
        NacelleError::Io(_) => Some("io"),
        NacelleError::Protocol(_) => Some("protocol"),
        NacelleError::Handler(_) => Some("handler"),
        NacelleError::Join(_) => Some("join"),
    }
}

/// The kind of a failure, whatever its reason.
pub open spec fn kind_of(error: NacelleError) -> &'static str {
    match error {
        NacelleError::ResourceLimit(_) => "resource_limit",
        NacelleError::Timeout(_) => "timeout",
        NacelleError::InvalidFrame(_) => "invalid_frame",
        NacelleError::FrameTooLarge { .. } => "frame_too_large",
        NacelleError::UnexpectedEof => "unexpected_eof",
        NacelleError::ConnectionClosed => "connection_closed",
        NacelleError::MissingProtocol => "missing_protocol",
        NacelleError::Io(_) => "io",
        NacelleError::Protocol(_) => "protocol",
        NacelleError::Handler(_) => "handler",
        NacelleError::Join(_) => "join",
    }
}

/// The kind of a failure, whatever its reason.
pub fn error_kind(error: &NacelleError) -> (kind: &'static str)
    ensures
        kind == kind_of(*error),
{
    match error {
        NacelleError::ResourceLimit(_) => "resource_limit",
        NacelleError::Timeout(_) => "timeout",
        NacelleError::InvalidFrame(_) => "invalid_frame",
        NacelleError::FrameTooLarge { .. } => "frame_too_large",
        NacelleError::UnexpectedEof => "unexpected_eof",
        NacelleError::ConnectionClosed => "connection_closed",
        NacelleError::MissingProtocol => "missing_protocol",
        NacelleError::Io(_) => "io",
        NacelleError::Protocol(_) => "protocol",
        NacelleError::Handler(_) => "handler",
        NacelleError::Join(_) => "join",
    }
}

/// The stage of shutdown that an event marks.
pub open spec fn stage_of(kind: NacelleTelemetryEventKind) -> &'static str {
    match kind {
        NacelleTelemetryEventKind::ShutdownRequested => "requested",
        NacelleTelemetryEventKind::ListenerStoppedAccepting => "listener_stopped_accepting",
        NacelleTelemetryEventKind::DrainStarted => "drain_started",
        NacelleTelemetryEventKind::DrainCompleted => "drain_completed",
        NacelleTelemetryEventKind::DrainTimedOut => "drain_timed_out",
        NacelleTelemetryEventKind::ConnectionsAborted => "connections_aborted",
        _ => "other",
    }
}

/// The stage of shutdown that an event marks.
pub fn shutdown_stage(kind: NacelleTelemetryEventKind) -> (stage: &'static str)
    ensures
        stage == stage_of(kind),
{
    match kind {
        NacelleTelemetryEventKind::ShutdownRequested => "requested",
        NacelleTelemetryEventKind::ListenerStoppedAccepting => "listener_stopped_accepting",
        NacelleTelemetryEventKind::DrainStarted => "drain_started",
        NacelleTelemetryEventKind::DrainCompleted => "drain_completed",
        NacelleTelemetryEventKind::DrainTimedOut => "drain_timed_out",
        NacelleTelemetryEventKind::ConnectionsAborted => "connections_aborted",
        _ => "other",
    }
}

} // verus!

//! Telemetry of TCP servers whose events go to a sink.
use vstd::prelude::*;

use super::event::{
    error_kind, error_reason, kind_of, reason_of, shutdown_stage, stage_of, NacelleTelemetryEvent,
    NacelleTelemetryEventKind, NacelleTelemetrySink,
};
use super::metric::{
    attributes_with_label, change_if, changes, counted, gauge_moves, label_texts,
    lemma_gauge_moves_add, lemma_gauge_moves_one, moved, no_updates, one_label, one_update,
    push_update, timed, two_labels, Label, MetricChange, MetricUpdate,
};
use super::recorder::{event_of, transport_label};
use crate::error::NacelleError;
use crate::text::{decimal, decimal_text};
use crate::time::Duration;
use crate::transport::NacelleTransport;

verus! {

/// Which metrics of TCP servers are kept.
#[derive(Debug, Clone, Copy, PartialEq, Eq, Structural)]
pub struct NacelleTelemetryConfig {
    pub tcp_metrics: bool,
    pub tcp_opcode_labels: bool,
}

impl Default for NacelleTelemetryConfig {
    fn default() -> (config: Self)
        ensures
            config == (NacelleTelemetryConfig { tcp_metrics: true, tcp_opcode_labels: false }),
    {
        Self { tcp_metrics: true, tcp_opcode_labels: false }
    }
}

/// The labels that the metrics of one TCP request share.
#[derive(Debug)]
pub struct NacelleTcpMetricsContext {
    pub transport: NacelleTransport,
    pub listener: String,
    pub protocol: &'static str,
    pub tls: &'static str,
    pub opcode: Option<u64>,
}

impl NacelleTcpMetricsContext {
    /// The labels of a connection's metrics.
    pub open spec fn connection_labels(&self) -> Seq<(Seq<char>, Seq<char>)> {
        seq![
            ("listener"@, self.listener@),
            ("transport"@, self.transport@),
            ("tls"@, self.tls@),
        ]
    }

    /// The labels of a request's metrics; the opcode is among them on request.
    pub open spec fn request_labels(&self, include_opcode: bool) -> Seq<(Seq<char>, Seq<char>)> {
        let labels = self.connection_labels().push(("protocol"@, self.protocol@));
        if include_opcode && self.opcode is Some {
            labels.push(("opcode"@, decimal(self.opcode->0 as nat)))
        } else {
            labels
        }
    }

    pub fn new(
        transport: NacelleTransport,
        listener: String,
        protocol: &'static str,
        tls: &'static str,
        opcode: Option<u64>,
    ) -> (context: Self)
        ensures
            context == (NacelleTcpMetricsContext { transport, listener, protocol, tls, opcode }),
    {
        Self { transport, listener, protocol, tls, opcode }
    }

    /// The same labels for a request whose opcode is not known.
    pub fn without_opcode(&self) -> (context: Self)
        ensures
            context == (NacelleTcpMetricsContext { opcode: None, ..*self }),
    {
        Self {
            transport: self.transport,
            listener: self.listener.clone(),
            protocol: self.protocol,
            tls: self.tls,
            opcode: None,
        }
    }

    /// The labels of a connection's metrics.
    pub fn connection_attributes(&self) -> (labels: Vec<Label>)
        ensures
            label_texts(labels@) == self.connection_labels(),
    {
        let mut labels: Vec<Label> = Vec::new();
        labels.push(Label::new("listener", self.listener.as_str()));
        labels.push(Label::new("transport", self.transport.as_str()));
        labels.push(Label::new("tls", self.tls));
        assert(label_texts(labels@) =~= self.connection_labels());
        labels
    }

    /// The labels of a request's metrics; the opcode is among them on request.
    pub fn request_attributes(&self, include_opcode: bool) -> (labels: Vec<Label>)
        ensures
            label_texts(labels@) == self.request_labels(include_opcode),
    {
        let labels = attributes_with_label(
            &self.connection_attributes(),
            "protocol",
            self.protocol,
        );
        match self.opcode {
            Some(opcode) if include_opcode => attributes_with_label(
                &labels,
                "opcode",
                decimal_text(opcode).as_str(),
            ),
            _ => labels,
        }
    }
}

/// Telemetry of TCP servers whose events go to a sink, where there is one.
#[derive(Debug)]
pub struct NacelleTelemetry<Sink> {
    sink: Option<Sink>,
    config: NacelleTelemetryConfig,
    runtime_state_registered: bool,
}

/// The changes that go with a TCP connection.
pub open spec fn tcp_accepted_changes(
    config: NacelleTelemetryConfig,
    context: NacelleTcpMetricsContext,
) -> Seq<MetricChange> {
    if config.tcp_metrics {
        seq![
            counted("nacelle.tcp.connections.accepted", context.connection_labels(), 1),
            moved("nacelle.tcp.connections.active", context.connection_labels(), true),
        ]
    } else {
        Seq::empty()
    }
}

/// The changes that go with the end of a TCP connection.
pub open spec fn tcp_closed_changes(
    config: NacelleTelemetryConfig,
    context: NacelleTcpMetricsContext,
    close_reason: Seq<char>,
) -> Seq<MetricChange> {
    if config.tcp_metrics {
        seq![
            counted(
                "nacelle.tcp.connections.closed",
                context.connection_labels().push(("close_reason"@, close_reason)),
                1,
            ),
            moved("nacelle.tcp.connections.active", context.connection_labels(), false),
        ]
    } else {
        Seq::empty()
    }
}

/// The changes that go with the start of a TCP request.
pub open spec fn tcp_started_changes(
    config: NacelleTelemetryConfig,
    context: NacelleTcpMetricsContext,
) -> Seq<MetricChange> {
    let labels = context.request_labels(config.tcp_opcode_labels);
    if config.tcp_metrics {
        seq![
            counted("nacelle.tcp.requests.started", labels, 1),
            moved("nacelle.tcp.requests.in_flight", labels, true),
        ]
    } else {
        Seq::empty()
    }
}

/// The changes that go with a finished TCP request.
pub open spec fn tcp_finished_changes(
    config: NacelleTelemetryConfig,
    context: NacelleTcpMetricsContext,
    status: Seq<char>,
    request_bytes: nat,
    response_bytes: nat,
    elapsed: nat,
) -> Seq<MetricChange> {
    let shared = context.request_labels(config.tcp_opcode_labels);
    let labels = shared.push(("status"@, status));
    if config.tcp_metrics {
        seq![
            counted("nacelle.tcp.requests.completed", labels, 1),
            timed("nacelle.tcp.request.duration_ms", labels, elapsed),
        ] + change_if(
            request_bytes != 0,
            counted("nacelle.tcp.request.bytes", labels, request_bytes),
        ) + change_if(
            response_bytes != 0,
            counted("nacelle.tcp.response.bytes", labels, response_bytes),
        ) + seq![moved("nacelle.tcp.requests.in_flight", shared, false)]
    } else {
        Seq::empty()
    }
}

/// The changes that go with a failed TCP operation.
pub open spec fn tcp_error_changes(
    config: NacelleTelemetryConfig,
    context: NacelleTcpMetricsContext,
    phase: Seq<char>,
    error: NacelleError,
) -> Seq<MetricChange> {
    let labels = context.request_labels(config.tcp_opcode_labels);
    if config.tcp_metrics {
        seq![
            counted(
                "nacelle.tcp.errors",
                labels.push(("phase"@, phase)).push(("error_kind"@, kind_of(error)@)),
                1,
            ),
        ] + match error {
            NacelleError::ResourceLimit(limit) => seq![
                counted(
                    "nacelle.tcp.resource_limit.rejections",
                    labels.push(("limit"@, limit@)).push(("phase"@, phase)),
                    1,
                ),
            ],
            _ => Seq::empty(),
        }
    } else {
        Seq::empty()
    }
}

impl<Sink> NacelleTelemetry<Sink> {
    pub closed spec fn configured(&self) -> NacelleTelemetryConfig {
        self.config
    }

    pub closed spec fn sends_to(&self) -> Option<Sink> {
        self.sink
    }

    /// Whether a runtime's gauges were registered.
    pub closed spec fn has_registered(&self) -> bool {
        self.runtime_state_registered
    }

    /// Telemetry with the default configuration and no sink.
    pub fn new() -> (telemetry: Self)
        ensures
            telemetry.sends_to() is None,
            telemetry.configured() == (NacelleTelemetryConfig {
                tcp_metrics: true,
                tcp_opcode_labels: false,
            }),
            !telemetry.has_registered(),
    {
        Self {
            sink: None,
            config: NacelleTelemetryConfig::default(),
            runtime_state_registered: false,
        }
    }

    pub fn with_sink(self, sink: Sink) -> (telemetry: Self)
        ensures
            telemetry.sends_to() == Some(sink),
            telemetry.configured() == self.configured(),
            telemetry.has_registered() == self.has_registered(),
    {
        Self { sink: Some(sink), ..self }
    }

    pub fn with_config(self, config: NacelleTelemetryConfig) -> (telemetry: Self)
        ensures
            telemetry.sends_to() == self.sends_to(),
            telemetry.configured() == config,
            telemetry.has_registered() == self.has_registered(),
    {
        Self { config, ..self }
    }

    pub fn with_tcp_metrics(self, enabled: bool) -> (telemetry: Self)
        ensures
            telemetry.sends_to() == self.sends_to(),
            telemetry.configured() == (NacelleTelemetryConfig {
                tcp_metrics: enabled,
                ..self.configured()
            }),
            telemetry.has_registered() == self.has_registered(),
    {
        let config = NacelleTelemetryConfig { tcp_metrics: enabled, ..self.config };
        Self { config, ..self }
    }

    pub fn with_tcp_opcode_labels(self, enabled: bool) -> (telemetry: Self)
        ensures
            telemetry.sends_to() == self.sends_to(),
            telemetry.configured() == (NacelleTelemetryConfig {
                tcp_opcode_labels: enabled,
                ..self.configured()
            }),
            telemetry.has_registered() == self.has_registered(),
    {
        let config = NacelleTelemetryConfig { tcp_opcode_labels: enabled, ..self.config };
        Self { config, ..self }
    }

    pub fn config(&self) -> (config: NacelleTelemetryConfig)
        ensures
            config == self.configured(),
    {
        self.config
    }

    /// The sink that events go to.
    pub fn sink(&self) -> (sink: Option<&Sink>)
        ensures
            match sink {
                Some(sink) => self.sends_to() == Some(*sink),
                None => self.sends_to() is None,
            },
    {
        match &self.sink {
            Some(sink) => Some(sink),
            None => None,
        }
    }

    pub fn tcp_metrics_enabled(&self) -> (enabled: bool)
        ensures
            enabled == self.configured().tcp_metrics,
    {
        self.config.tcp_metrics
    }

    /// Whether a runtime's gauges are to be registered: the first call says so,
    /// and no later one.
    pub fn register_runtime_state(&mut self) -> (first: bool)
        ensures
            first == !old(self).has_registered(),
            final(self).has_registered(),
            final(self).sends_to() == old(self).sends_to(),
            final(self).configured() == old(self).configured(),
    {
        if self.runtime_state_registered {
            return false;
        }
        self.runtime_state_registered = true;
        true
    }

    pub fn tcp_connection_accepted(&self, context: &NacelleTcpMetricsContext) -> (updates: Vec<
        MetricUpdate,
    >)
        ensures
            changes(updates@) == tcp_accepted_changes(self.configured(), *context),
    {
        if !self.tcp_metrics_enabled() {
            return no_updates();
        }
        let mut updates = one_update(
            MetricUpdate::Counter {
                name: "nacelle.tcp.connections.accepted",
                labels: context.connection_attributes(),
                increment: 1,
            },
        );
        push_update(
            &mut updates,
            MetricUpdate::Gauge {
                name: "nacelle.tcp.connections.active",
                labels: context.connection_attributes(),
                up: true,
                amount: 1,
            },
        );
        assert(changes(updates@) =~= tcp_accepted_changes(self.config, *context));
        updates
    }

    pub fn tcp_connection_closed(
        &self,
        context: &NacelleTcpMetricsContext,
        close_reason: &'static str,
    ) -> (updates: Vec<MetricUpdate>)
        ensures
            changes(updates@) == tcp_closed_changes(self.configured(), *context, close_reason@),
    {
        if !self.tcp_metrics_enabled() {
            return no_updates();
        }
        let mut updates = one_update(
            MetricUpdate::Counter {
                name: "nacelle.tcp.connections.closed",
                labels: attributes_with_label(
                    &context.connection_attributes(),
                    "close_reason",
                    close_reason,
                ),
                increment: 1,
            },
        );
        push_update(
            &mut updates,
            MetricUpdate::Gauge {
                name: "nacelle.tcp.connections.active",
                labels: context.connection_attributes(),
                up: false,
                amount: 1,
            },
        );
        assert(changes(updates@) =~= tcp_closed_changes(self.config, *context, close_reason@));
        updates
    }

    pub fn tcp_request_started(&self, context: &NacelleTcpMetricsContext) -> (updates: Vec<
        MetricUpdate,
    >)
        ensures
            changes(updates@) == tcp_started_changes(self.configured(), *context),
    {
        if !self.tcp_metrics_enabled() {
            return no_updates();
        }
        let mut updates = one_update(
            MetricUpdate::Counter {
                name: "nacelle.tcp.requests.started",
                labels: context.request_attributes(self.config.tcp_opcode_labels),
                increment: 1,
            },
        );
        push_update(
            &mut updates,
            MetricUpdate::Gauge {
                name: "nacelle.tcp.requests.in_flight",
                labels: context.request_attributes(self.config.tcp_opcode_labels),
                up: true,
                amount: 1,
            },
        );
        assert(changes(updates@) =~= tcp_started_changes(self.config, *context));
        updates
    }

    pub fn tcp_request_completed(
        &self,
        context: &NacelleTcpMetricsContext,
        status: &'static str,
        request_bytes: usize,
        response_bytes: usize,
        elapsed: Duration,
    ) -> (updates: Vec<MetricUpdate>)
        ensures
            changes(updates@) == tcp_finished_changes(
                self.configured(),
                *context,
                status@,
                request_bytes as nat,
                response_bytes as nat,
                elapsed@,
            ),
    {
        if !self.tcp_metrics_enabled() {
            return no_updates();
        }
        let shared = context.request_attributes(self.config.tcp_opcode_labels);
        let mut updates = one_update(
            MetricUpdate::Counter {
                name: "nacelle.tcp.requests.completed",
                labels: attributes_with_label(&shared, "status", status),
                increment: 1,
            },
        );
        push_update(
            &mut updates,
            MetricUpdate::Histogram {
                name: "nacelle.tcp.request.duration_ms",
                labels: attributes_with_label(&shared, "status", status),
                elapsed,
            },
        );
        if request_bytes != 0 {
            push_update(
                &mut updates,
                MetricUpdate::Counter {
                    name: "nacelle.tcp.request.bytes",
                    labels: attributes_with_label(&shared, "status", status),
                    increment: request_bytes as u64,
                },
            );
        }
        if response_bytes != 0 {
            push_update(
                &mut updates,
                MetricUpdate::Counter {
                    name: "nacelle.tcp.response.bytes",
                    labels: attributes_with_label(&shared, "status", status),
                    increment: response_bytes as u64,
                },
            );
        }
        push_update(
            &mut updates,
            MetricUpdate::Gauge {
                name: "nacelle.tcp.requests.in_flight",
                labels: context.request_attributes(self.config.tcp_opcode_labels),
                up: false,
                amount: 1,
            },
        );
        assert(changes(updates@) =~= tcp_finished_changes(
            self.config,
            *context,
            status@,
            request_bytes as nat,
            response_bytes as nat,
            elapsed@,
        ));
        updates
    }

    pub fn tcp_request_body_bytes(&self, context: &NacelleTcpMetricsContext, bytes: usize) -> (updates:
        Vec<MetricUpdate>)
        ensures
            changes(updates@) == change_if(
                bytes != 0 && self.configured().tcp_metrics,
                counted(
                    "nacelle.tcp.request.body_bytes",
                    context.request_labels(self.configured().tcp_opcode_labels),
                    bytes as nat,
                ),
            ),
    {
        if bytes == 0 || !self.tcp_metrics_enabled() {
            return no_updates();
        }
        one_update(
            MetricUpdate::Counter {
                name: "nacelle.tcp.request.body_bytes",
                labels: context.request_attributes(self.config.tcp_opcode_labels),
                increment: bytes as u64,
            },
        )
    }

    pub fn tcp_phase_duration(
        &self,
        context: &NacelleTcpMetricsContext,
        phase: &'static str,
        elapsed: Duration,
    ) -> (updates: Vec<MetricUpdate>)
        ensures
            changes(updates@) == change_if(
                self.configured().tcp_metrics,
                timed(
                    "nacelle.tcp.phase.duration_ms",
                    context.request_labels(self.configured().tcp_opcode_labels).push(
                        ("phase"@, phase@),
                    ),
                    elapsed@,
                ),
            ),
    {
        if !self.tcp_metrics_enabled() {
            return no_updates();
        }
        let labels = context.request_attributes(self.config.tcp_opcode_labels);
        one_update(
            MetricUpdate::Histogram {
                name: "nacelle.tcp.phase.duration_ms",
                labels: attributes_with_label(&labels, "phase", phase),
                elapsed,
            },
        )
    }

    pub fn tcp_error(
        &self,
        context: &NacelleTcpMetricsContext,
        phase: &'static str,
        error: &NacelleError,
    ) -> (updates: Vec<MetricUpdate>)
        ensures
            changes(updates@) == tcp_error_changes(self.configured(), *context, phase@, *error),
    {
        if !self.tcp_metrics_enabled() {
            return no_updates();
        }
        let shared = context.request_attributes(self.config.tcp_opcode_labels);
        let attributes = attributes_with_label(&shared, "phase", phase);
        let mut updates = one_update(
            MetricUpdate::Counter {
                name: "nacelle.tcp.errors",
                labels: attributes_with_label(&attributes, "error_kind", error_kind(error)),
                increment: 1,
            },
        );
        if let NacelleError::ResourceLimit(limit) = error {
            let attributes = attributes_with_label(&shared, "limit", limit);
            push_update(
                &mut updates,
                MetricUpdate::Counter {
                    name: "nacelle.tcp.resource_limit.rejections",
                    labels: attributes_with_label(&attributes, "phase", phase),
                    increment: 1,
                },
            );
        }
        assert(changes(updates@) =~= tcp_error_changes(self.config, *context, phase@, *error));
        updates
    }
}

impl<Sink: NacelleTelemetrySink> NacelleTelemetry<Sink> {
    /// Whether `event` alone leads from `before` to `after`.
    pub open spec fn told(before: Self, event: NacelleTelemetryEvent, after: Self) -> bool {
        &&& after.configured() == before.configured()
        &&& after.has_registered() == before.has_registered()
        &&& match before.sends_to() {
            Some(sink) => after.sends_to() is Some && Sink::takes(
                sink,
                event,
                after.sends_to()->0,
            ),
            None => after.sends_to() is None,
        }
    }

    fn record(
        &mut self,
        kind: NacelleTelemetryEventKind,
        transport: Option<NacelleTransport>,
        reason: Option<&'static str>,
        count: u64,
    )
        ensures
            Self::told(*old(self), event_of(kind, transport, reason, count), *final(self)),
    {
        if let Some(sink) = &mut self.sink {
            sink.record(NacelleTelemetryEvent { kind, transport, reason, count });
        }
    }

    /// What [`Self::listener_configured`] tells, and what it counts.
    pub open spec fn tells_listener_configured(
        before: Self,
        transport: NacelleTransport,
        after: Self,
    ) -> bool {
        &&& Self::told(
            before,
            event_of(NacelleTelemetryEventKind::ListenerConfigured, Some(transport), None, 1),
            after,
        )
    }

    pub fn listener_configured(&mut self, transport: NacelleTransport)
        ensures
            Self::tells_listener_configured(*old(self), transport, *final(self)),
    {
        self.record(NacelleTelemetryEventKind::ListenerConfigured, Some(transport), None, 1);
    }

    /// What [`Self::listener_failed`] tells, and what it counts.
    pub open spec fn tells_listener_failed(
        before: Self,
        transport: NacelleTransport,
        error: NacelleError,
        after: Self,
    ) -> bool {
        &&& Self::told(
            before,
            event_of(
                NacelleTelemetryEventKind::ListenerFailed,
                Some(transport),
                reason_of(error),
                1,
            ),
            after,
        )
    }

    pub fn listener_failed(&mut self, transport: NacelleTransport, error: &NacelleError)
        ensures
            Self::tells_listener_failed(*old(self), transport, *error, *final(self)),
    {
        self.record(
            NacelleTelemetryEventKind::ListenerFailed,
            Some(transport),
            error_reason(error),
            1,
        );
    }

    /// What [`Self::connection_opened`] tells, and what it counts.
    pub open spec fn tells_connection_opened(
        before: Self,
        transport: NacelleTransport,
        updates: Vec<MetricUpdate>,
        after: Self,
    ) -> bool {
        &&& Self::told(
            before,
            event_of(NacelleTelemetryEventKind::ConnectionOpened, Some(transport), None, 1),
            after,
        )
        &&& changes(updates@) == seq![
            counted("nacelle.connections", transport_label(transport), 1),
        ]
    }

    pub fn connection_opened(&mut self, transport: NacelleTransport) -> (updates: Vec<MetricUpdate>)
        ensures
            Self::tells_connection_opened(*old(self), transport, updates, *final(self)),
    {
        self.record(NacelleTelemetryEventKind::ConnectionOpened, Some(transport), None, 1);
        one_update(
            MetricUpdate::Counter {
                name: "nacelle.connections",
                labels: one_label("transport", transport.as_str()),
                increment: 1,
            },
        )
    }

    /// What [`Self::connection_rejected`] tells, and what it counts.
    pub open spec fn tells_connection_rejected(
        before: Self,
        transport: NacelleTransport,
        reason: &'static str,
        updates: Vec<MetricUpdate>,
        after: Self,
    ) -> bool {
        &&& Self::told(
            before,
            event_of(
                NacelleTelemetryEventKind::ConnectionRejected,
                Some(transport),
                Some(reason),
                1,
            ),
            after,
        )
        &&& changes(updates@) == seq![
            counted(
                "nacelle.rejections",
                seq![("transport"@, transport@), ("reason"@, reason@)],
                1,
            ),
        ]
    }

    pub fn connection_rejected(&mut self, transport: NacelleTransport, reason: &'static str) -> (updates:
        Vec<MetricUpdate>)
        ensures
            Self::tells_connection_rejected(*old(self), transport, reason, updates, *final(self)),
    {
        self.record(
            NacelleTelemetryEventKind::ConnectionRejected,
            Some(transport),
            Some(reason),
            1,
        );
        one_update(
            MetricUpdate::Counter {
                name: "nacelle.rejections",
                labels: two_labels("transport", transport.as_str(), "reason", reason),
                increment: 1,
            },
        )
    }

    /// What [`Self::request_rejected`] tells, and what it counts.
    pub open spec fn tells_request_rejected(
        before: Self,
        transport: NacelleTransport,
        reason: &'static str,
        updates: Vec<MetricUpdate>,
        after: Self,
    ) -> bool {
        &&& Self::told(
            before,
            event_of(
                NacelleTelemetryEventKind::RequestRejected,
                Some(transport),
                Some(reason),
                1,
            ),
            after,
        )
        &&& changes(updates@) == seq![
            counted(
                "nacelle.rejections",
                seq![("transport"@, transport@), ("reason"@, reason@)],
                1,
            ),
        ]
    }

    pub fn request_rejected(&mut self, transport: NacelleTransport, reason: &'static str) -> (updates:
        Vec<MetricUpdate>)
        ensures
            Self::tells_request_rejected(*old(self), transport, reason, updates, *final(self)),
    {
        self.record(NacelleTelemetryEventKind::RequestRejected, Some(transport), Some(reason), 1);
        one_update(
            MetricUpdate::Counter {
                name: "nacelle.rejections",
                labels: two_labels("transport", transport.as_str(), "reason", reason),
                increment: 1,
            },
        )
    }

    /// What [`Self::request_completed`] tells, and what it counts.
    pub open spec fn tells_request_completed(
        before: Self,
        transport: NacelleTransport,
        request_bytes: usize,
        response_bytes: usize,
        elapsed: Duration,
        updates: Vec<MetricUpdate>,
        after: Self,
    ) -> bool {
        &&& Self::told(
            before,
            event_of(NacelleTelemetryEventKind::RequestCompleted, Some(transport), None, 1),
            after,
        )
        &&& changes(updates@) == seq![
            counted("nacelle.requests", transport_label(transport), 1),
            timed("nacelle.request_duration_ms", transport_label(transport), elapsed@),
            counted(
                "nacelle.request_bytes",
                transport_label(transport),
                request_bytes as nat,
            ),
            counted(
                "nacelle.response_bytes",
                transport_label(transport),
                response_bytes as nat,
            ),
        ]
    }

    pub fn request_completed(
        &mut self,
        transport: NacelleTransport,
        request_bytes: usize,
        response_bytes: usize,
        elapsed: Duration,
    ) -> (updates: Vec<MetricUpdate>)
        ensures
            Self::tells_request_completed(
                *old(self),
                transport,
                request_bytes,
                response_bytes,
                elapsed,
                updates,
                *final(self),
            ),
    {
        self.record(NacelleTelemetryEventKind::RequestCompleted, Some(transport), None, 1);
        let mut updates = one_update(
            MetricUpdate::Counter {
                name: "nacelle.requests",
                labels: one_label("transport", transport.as_str()),
                increment: 1,
            },
        );
        push_update(
            &mut updates,
            MetricUpdate::Histogram {
                name: "nacelle.request_duration_ms",
                labels: one_label("transport", transport.as_str()),
                elapsed,
            },
        );
        push_update(
            &mut updates,
            MetricUpdate::Counter {
                name: "nacelle.request_bytes",
                labels: one_label("transport", transport.as_str()),
                increment: request_bytes as u64,
            },
        );
        push_update(
            &mut updates,
            MetricUpdate::Counter {
                name: "nacelle.response_bytes",
                labels: one_label("transport", transport.as_str()),
                increment: response_bytes as u64,
            },
        );
        assert(changes(updates@) =~= seq![
            counted("nacelle.requests", transport_label(transport), 1),
            timed("nacelle.request_duration_ms", transport_label(transport), elapsed@),
            counted("nacelle.request_bytes", transport_label(transport), request_bytes as nat),
            counted("nacelle.response_bytes", transport_label(transport), response_bytes as nat),
        ]);
        updates
    }

    /// What [`Self::request_failed`] tells, and what it counts.
    pub open spec fn tells_request_failed(
        before: Self,
        transport: NacelleTransport,
        elapsed: Duration,
        error: NacelleError,
        updates: Vec<MetricUpdate>,
        after: Self,
    ) -> bool {
        &&& Self::told(
            before,
            event_of(
                NacelleTelemetryEventKind::RequestFailed,
                Some(transport),
                reason_of(error),
                1,
            ),
            after,
        )
        &&& changes(updates@) == seq![
            counted("nacelle.request_errors", transport_label(transport), 1),
            timed("nacelle.request_duration_ms", transport_label(transport), elapsed@),
        ]
    }

    pub fn request_failed(
        &mut self,
        transport: NacelleTransport,
        elapsed: Duration,
        error: &NacelleError,
    ) -> (updates: Vec<MetricUpdate>)
        ensures
            Self::tells_request_failed(
                *old(self),
                transport,
                elapsed,
                *error,
                updates,
                *final(self),
            ),
    {
        self.record(
            NacelleTelemetryEventKind::RequestFailed,
            Some(transport),
            error_reason(error),
            1,
        );
        let mut updates = one_update(
            MetricUpdate::Counter {
                name: "nacelle.request_errors",
                labels: one_label("transport", transport.as_str()),
                increment: 1,
            },
        );
        push_update(
            &mut updates,
            MetricUpdate::Histogram {
                name: "nacelle.request_duration_ms",
                labels: one_label("transport", transport.as_str()),
                elapsed,
            },
        );
        assert(changes(updates@) =~= seq![
            counted("nacelle.request_errors", transport_label(transport), 1),
            timed("nacelle.request_duration_ms", transport_label(transport), elapsed@),
        ]);
        updates
    }

    /// What [`Self::timeout`] tells, and what it counts.
    pub open spec fn tells_timeout(
        before: Self,
        transport: NacelleTransport,
        operation: &'static str,
        updates: Vec<MetricUpdate>,
        after: Self,
    ) -> bool {
        &&& Self::told(
            before,
            event_of(
                NacelleTelemetryEventKind::Timeout,
                Some(transport),
                Some(operation),
                1,
            ),
            after,
        )
        &&& changes(updates@) == seq![
            counted(
                "nacelle.timeouts",
                seq![("transport"@, transport@), ("operation"@, operation@)],
                1,
            ),
        ]
    }

    pub fn timeout(&mut self, transport: NacelleTransport, operation: &'static str) -> (updates: Vec<
        MetricUpdate,
    >)
        ensures
            Self::tells_timeout(*old(self), transport, operation, updates, *final(self)),
    {
        self.record(NacelleTelemetryEventKind::Timeout, Some(transport), Some(operation), 1);
        one_update(
            MetricUpdate::Counter {
                name: "nacelle.timeouts",
                labels: two_labels("transport", transport.as_str(), "operation", operation),
                increment: 1,
            },
        )
    }

    /// What [`Self::shutdown_event`] tells, and what it counts.
    pub open spec fn tells_shutdown_event(
        before: Self,
        kind: NacelleTelemetryEventKind,
        transport: NacelleTransport,
        updates: Vec<MetricUpdate>,
        after: Self,
    ) -> bool {
        &&& Self::told(before, event_of(kind, Some(transport), None, 1), after)
        &&& changes(updates@) == seq![
            counted(
                "nacelle.shutdown_events",
                seq![("transport"@, transport@), ("stage"@, stage_of(kind)@)],
                1,
            ),
        ]
    }

    pub fn shutdown_event(&mut self, kind: NacelleTelemetryEventKind, transport: NacelleTransport) -> (updates:
        Vec<MetricUpdate>)
        ensures
            Self::tells_shutdown_event(*old(self), kind, transport, updates, *final(self)),
    {
        self.record(kind, Some(transport), None, 1);
        one_update(
            MetricUpdate::Counter {
                name: "nacelle.shutdown_events",
                labels: two_labels("transport", transport.as_str(), "stage", shutdown_stage(kind)),
                increment: 1,
            },
        )
    }

    /// What [`Self::shutdown_requested`] tells, and what it counts.
    pub open spec fn tells_shutdown_requested(
        before: Self,
        updates: Vec<MetricUpdate>,
        after: Self,
    ) -> bool {
        &&& Self::told(
            before,
            event_of(NacelleTelemetryEventKind::ShutdownRequested, None, None, 1),
            after,
        )
        &&& changes(updates@) == seq![
            counted(
                "nacelle.shutdown_events",
                seq![("transport"@, "host"@), ("stage"@, "requested"@)],
                1,
            ),
        ]
    }

    pub fn shutdown_requested(&mut self) -> (updates: Vec<MetricUpdate>)
        ensures
            Self::tells_shutdown_requested(*old(self), updates, *final(self)),
    {
        self.record(NacelleTelemetryEventKind::ShutdownRequested, None, None, 1);
        one_update(
            MetricUpdate::Counter {
                name: "nacelle.shutdown_events",
                labels: two_labels("transport", "host", "stage", "requested"),
                increment: 1,
            },
        )
    }

    /// What [`Self::connections_aborted`] tells, and what it counts.
    pub open spec fn tells_connections_aborted(
        before: Self,
        transport: NacelleTransport,
        count: usize,
        updates: Vec<MetricUpdate>,
        after: Self,
    ) -> bool {
        &&& Self::told(
            before,
            event_of(
                NacelleTelemetryEventKind::ConnectionsAborted,
                Some(transport),
                None,
                count as u64,
            ),
            after,
        )
        &&& changes(updates@) == seq![
            counted("nacelle.connection_aborts", transport_label(transport), count as nat),
        ]
    }

    pub fn connections_aborted(&mut self, transport: NacelleTransport, count: usize) -> (updates: Vec<
        MetricUpdate,
    >)
        ensures
            Self::tells_connections_aborted(*old(self), transport, count, updates, *final(self)),
    {
        self.record(
            NacelleTelemetryEventKind::ConnectionsAborted,
            Some(transport),
            None,
            count as u64,
        );
        one_update(
            MetricUpdate::Counter {
                name: "nacelle.connection_aborts",
                labels: one_label("transport", transport.as_str()),
                increment: count as u64,
            },
        )
    }

    /// Bytes of a response body were sent; nothing happens where there were none.
    pub fn response_body_bytes(&mut self, transport: NacelleTransport, bytes: usize) -> (updates: Vec<
        MetricUpdate,
    >)
        ensures
            if bytes == 0 {
                *final(self) == *old(self)
            } else {
                Self::told(
                    *old(self),
                    event_of(
                        NacelleTelemetryEventKind::ResponseBodyBytes,
                        Some(transport),
                        None,
                        bytes as u64,
                    ),
                    *final(self),
                )
            },
            changes(updates@) == change_if(
                bytes != 0,
                counted("nacelle.response_bytes", transport_label(transport), bytes as nat),
            ),
    {
        if bytes == 0 {
            return no_updates();
        }
        self.record(
            NacelleTelemetryEventKind::ResponseBodyBytes,
            Some(transport),
            None,
            bytes as u64,
        );
        one_update(
            MetricUpdate::Counter {
                name: "nacelle.response_bytes",
                labels: one_label("transport", transport.as_str()),
                increment: bytes as u64,
            },
        )
    }
}

/// Two changes, of which only the second moves the gauge.
proof fn lemma_second_moves(
    changes: Seq<MetricChange>,
    name: Seq<char>,
    labels: Seq<(Seq<char>, Seq<char>)>,
    up: bool,
)
    requires
        changes.len() == 2,
        changes[0] is Counted,
        changes[1] == (MetricChange::Moved { name, labels, up, amount: 1 }),
    ensures
        gauge_moves(changes, name, labels) == if up {
            1int
        } else {
            -1int
        },
{
    assert(changes =~= seq![changes[0]] + seq![changes[1]]);
    lemma_gauge_moves_add(seq![changes[0]], seq![changes[1]], name, labels);
    lemma_gauge_moves_one(changes[0], name, labels);
    lemma_gauge_moves_one(changes[1], name, labels);
}

/// Gauges of TCP servers return to where they were: a connection that ends takes
/// back what it added, and so does a request, however it ends.
pub proof fn law_tcp_gauges_balance(
    config: NacelleTelemetryConfig,
    context: NacelleTcpMetricsContext,
    close_reason: Seq<char>,
    status: Seq<char>,
    request_bytes: nat,
    response_bytes: nat,
    elapsed: nat,
)
    ensures
        gauge_moves(
            tcp_accepted_changes(config, context) + tcp_closed_changes(
                config,
                context,
                close_reason,
            ),
            "nacelle.tcp.connections.active"@,
            context.connection_labels(),
        ) == 0,
        gauge_moves(
            tcp_started_changes(config, context) + tcp_finished_changes(
                config,
                context,
                status,
                request_bytes,
                response_bytes,
                elapsed,
            ),
            "nacelle.tcp.requests.in_flight"@,
            context.request_labels(config.tcp_opcode_labels),
        ) == 0,
{
    let active = "nacelle.tcp.connections.active"@;
    let labels = context.connection_labels();
    let accepted = tcp_accepted_changes(config, context);
    let closed = tcp_closed_changes(config, context, close_reason);
    let name = "nacelle.tcp.requests.in_flight"@;
    let shared = context.request_labels(config.tcp_opcode_labels);
    let started = tcp_started_changes(config, context);
    let finished = tcp_finished_changes(
        config,
        context,
        status,
        request_bytes,
        response_bytes,
        elapsed,
    );
    lemma_gauge_moves_add(accepted, closed, active, labels);
    lemma_gauge_moves_add(started, finished, name, shared);
    if config.tcp_metrics {
        lemma_second_moves(accepted, active, labels, true);
        lemma_second_moves(closed, active, labels, false);
        lemma_second_moves(started, name, shared, true);
        let outcome = shared.push(("status"@, status));
        let completed = counted("nacelle.tcp.requests.completed", outcome, 1);
        let duration = timed("nacelle.tcp.request.duration_ms", outcome, elapsed);
        let received = counted("nacelle.tcp.request.bytes", outcome, request_bytes);
        let sent = counted("nacelle.tcp.response.bytes", outcome, response_bytes);
        let down = moved("nacelle.tcp.requests.in_flight", shared, false);
        let first = seq![completed, duration];
        let b = change_if(request_bytes != 0, received);
        let c = change_if(response_bytes != 0, sent);
        assert(first =~= seq![completed] + seq![duration]);
        lemma_gauge_moves_add(seq![completed], seq![duration], name, shared);
        lemma_gauge_moves_add(first, b, name, shared);
        lemma_gauge_moves_add(first + b, c, name, shared);
        lemma_gauge_moves_add(first + b + c, seq![down], name, shared);
        lemma_gauge_moves_one(completed, name, shared);
        lemma_gauge_moves_one(duration, name, shared);
        lemma_gauge_moves_one(received, name, shared);
        lemma_gauge_moves_one(sent, name, shared);
        lemma_gauge_moves_one(down, name, shared);
    }
}

} // verus!

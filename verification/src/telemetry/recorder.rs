//! The telemetry of one server.
//!
//! Each method tells the observer of its event and returns the changes to
//! metrics that go with it.
use vstd::prelude::*;

use super::context::{is_phase, known_phase, NacelleMetricsContext, PHASE_TIMING};
use super::event::{
    error_kind, error_reason, kind_of, reason_of, shutdown_stage, stage_of, CompositeObserver,
    NacelleTelemetryEvent, NacelleTelemetryEventKind, NacelleTelemetryObserver, NoopObserver,
};
use super::metric::{
    attributes_with_label, change_if, changes, counted, gauge_moves, lemma_gauge_moves_add,
    lemma_gauge_moves_one, moved, no_updates, one_label, one_update, push_update, timed, two_labels,
    MetricChange, MetricUpdate,
};
use crate::error::NacelleError;
use crate::time::Duration;
use crate::transport::NacelleTransport;

verus! {

/// Which metrics of requests are kept.
#[derive(Debug, Clone, Copy, PartialEq, Eq, Structural)]
pub struct NacelleRequestMetricsConfig {
    pub started: bool,
    pub completed: bool,
    pub in_flight: bool,
    pub duration_ms: bool,
    pub byte_counts: bool,
}

impl Default for NacelleRequestMetricsConfig {
    fn default() -> (config: Self)
        ensures
            config == (NacelleRequestMetricsConfig {
                started: true,
                completed: true,
                in_flight: false,
                duration_ms: false,
                byte_counts: true,
            }),
    {
        Self {
            started: true,
            completed: true,
            in_flight: false,
            duration_ms: false,
            byte_counts: true,
        }
    }
}

impl NacelleRequestMetricsConfig {
    /// Whether any metric of requests is kept.
    pub fn enabled(self) -> (enabled: bool)
        ensures
            enabled == (self.started || self.completed || self.in_flight || self.duration_ms
                || self.byte_counts),
    {
        self.started || self.completed || self.in_flight || self.duration_ms || self.byte_counts
    }
}

/// Which metrics are kept.
#[derive(Debug, Clone, Copy, PartialEq, Eq, Structural)]
pub struct NacelleTelemetryConfig {
    pub request_metrics: NacelleRequestMetricsConfig,
    pub phase_duration_metrics: bool,
}

impl Default for NacelleTelemetryConfig {
    fn default() -> (config: Self)
        ensures
            config.request_metrics == (NacelleRequestMetricsConfig {
                started: true,
                completed: true,
                in_flight: false,
                duration_ms: false,
                byte_counts: true,
            }),
            !config.phase_duration_metrics,
    {
        Self {
            request_metrics: NacelleRequestMetricsConfig::default(),
            phase_duration_metrics: false,
        }
    }
}

/// The telemetry of one server.
#[derive(Debug)]
pub struct NacelleTelemetry<Observer> {
    config: NacelleTelemetryConfig,
    observer: Observer,
}

impl Default for NacelleTelemetry<NoopObserver> {
    fn default() -> (telemetry: Self)
        ensures
            telemetry.observed_by() == NoopObserver,
            telemetry.configured() == (NacelleTelemetryConfig {
                request_metrics: NacelleRequestMetricsConfig {
                    started: true,
                    completed: true,
                    in_flight: false,
                    duration_ms: false,
                    byte_counts: true,
                },
                phase_duration_metrics: false,
            }),
    {
        Self::new()
    }
}

impl NacelleTelemetry<NoopObserver> {
    /// Telemetry with the default configuration and no observer.
    pub fn new() -> (telemetry: Self)
        ensures
            telemetry.observed_by() == NoopObserver,
            telemetry.configured() == (NacelleTelemetryConfig {
                request_metrics: NacelleRequestMetricsConfig {
                    started: true,
                    completed: true,
                    in_flight: false,
                    duration_ms: false,
                    byte_counts: true,
                },
                phase_duration_metrics: false,
            }),
    {
        Self { config: NacelleTelemetryConfig::default(), observer: NoopObserver }
    }
}

/// The event of `kind` on `transport`.
pub open spec fn event_of(
    kind: NacelleTelemetryEventKind,
    transport: Option<NacelleTransport>,
    reason: Option<&'static str>,
    count: u64,
) -> NacelleTelemetryEvent {
    NacelleTelemetryEvent { kind, transport, reason, count }
}

/// The label of a transport alone.
pub open spec fn transport_label(transport: NacelleTransport) -> Seq<(Seq<char>, Seq<char>)> {
    seq![("transport"@, transport@)]
}

/// The changes that go with a connection of a listener.
pub open spec fn accepted_changes(context: NacelleMetricsContext) -> Seq<MetricChange> {
    seq![
        counted("nacelle.connections.accepted", context.connection_labels(), 1),
        moved("nacelle.connections.in_flight", context.connection_labels(), true),
    ]
}

/// The changes that go with the end of a connection of a listener.
pub open spec fn closed_changes(context: NacelleMetricsContext, close_reason: Seq<char>) -> Seq<
    MetricChange,
> {
    seq![
        counted(
            "nacelle.connections.closed",
            context.connection_labels().push(("close_reason"@, close_reason)),
            1,
        ),
        moved("nacelle.connections.in_flight", context.connection_labels(), false),
    ]
}

/// The changes that go with the start of a request of a listener.
pub open spec fn started_changes(
    config: NacelleRequestMetricsConfig,
    context: NacelleMetricsContext,
) -> Seq<MetricChange> {
    change_if(
        config.started,
        counted("nacelle.requests.started", context.request_labels(), 1),
    ) + change_if(
        config.in_flight,
        moved("nacelle.requests.in_flight", context.request_labels(), true),
    )
}

/// The changes that go with a finished request of a listener.
pub open spec fn finished_changes(
    config: NacelleRequestMetricsConfig,
    context: NacelleMetricsContext,
    status: Seq<char>,
    request_bytes: nat,
    response_bytes: nat,
    elapsed: nat,
) -> Seq<MetricChange> {
    let labels = context.outcome_labels(status);
    change_if(config.completed, counted("nacelle.requests.completed", labels, 1)) + change_if(
        config.duration_ms,
        timed("nacelle.request.duration_ms", labels, elapsed),
    ) + change_if(
        config.byte_counts && request_bytes != 0,
        counted("nacelle.request.bytes", labels, request_bytes),
    ) + change_if(
        config.byte_counts && response_bytes != 0,
        counted("nacelle.response.bytes", labels, response_bytes),
    ) + change_if(
        config.in_flight,
        moved("nacelle.requests.in_flight", context.request_labels(), false),
    )
}

/// The changes that go with a completed request of a transport.
pub open spec fn completed_changes(
    config: NacelleRequestMetricsConfig,
    transport: NacelleTransport,
    request_bytes: nat,
    response_bytes: nat,
    elapsed: nat,
) -> Seq<MetricChange> {
    let labels = seq![("transport"@, transport@), ("status"@, "ok"@)];
    change_if(config.completed, counted("nacelle.requests.completed", labels, 1)) + change_if(
        config.duration_ms,
        timed("nacelle.request.duration_ms", labels, elapsed),
    ) + change_if(
        config.byte_counts && request_bytes != 0,
        counted("nacelle.request.bytes", labels, request_bytes),
    ) + change_if(
        config.byte_counts && response_bytes != 0,
        counted("nacelle.response.bytes", labels, response_bytes),
    )
}

/// The changes that go with a failed request of a transport.
pub open spec fn failed_changes(
    config: NacelleRequestMetricsConfig,
    transport: NacelleTransport,
    elapsed: nat,
) -> Seq<MetricChange> {
    seq![counted("nacelle.requests.failed", transport_label(transport), 1)] + change_if(
        config.duration_ms,
        timed(
            "nacelle.request.duration_ms",
            seq![("transport"@, transport@), ("status"@, "error"@)],
            elapsed,
        ),
    )
}

/// Durations of requests are timed only on demand: while they are switched off,
/// no request times anything, however it ends, and what is counted of it does not
/// depend on how long it took.
pub proof fn law_durations_are_timed_on_demand(
    config: NacelleRequestMetricsConfig,
    transport: NacelleTransport,
    request_bytes: nat,
    response_bytes: nat,
    elapsed: nat,
    other: nat,
)
    requires
        !config.duration_ms,
    ensures
        forall|i: int|
            0 <= i < completed_changes(
                config,
                transport,
                request_bytes,
                response_bytes,
                elapsed,
            ).len() ==> !(#[trigger] completed_changes(
                config,
                transport,
                request_bytes,
                response_bytes,
                elapsed,
            )[i] is Timed),
        forall|i: int|
            0 <= i < failed_changes(config, transport, elapsed).len() ==> !(#[trigger] failed_changes(
                config,
                transport,
                elapsed,
            )[i] is Timed),
        completed_changes(config, transport, request_bytes, response_bytes, elapsed)
            == completed_changes(config, transport, request_bytes, response_bytes, other),
        failed_changes(config, transport, elapsed) == failed_changes(config, transport, other),
{
}

/// Gauges of what is in flight return to where they were: a connection that ends
/// takes back what it added, and so does a request, however it ends and whatever
/// is kept of it.
pub proof fn law_in_flight_gauges_balance(
    config: NacelleRequestMetricsConfig,
    context: NacelleMetricsContext,
    close_reason: Seq<char>,
    status: Seq<char>,
    request_bytes: nat,
    response_bytes: nat,
    elapsed: nat,
)
    ensures
        gauge_moves(
            accepted_changes(context) + closed_changes(context, close_reason),
            "nacelle.connections.in_flight"@,
            context.connection_labels(),
        ) == 0,
        gauge_moves(
            started_changes(config, context) + finished_changes(
                config,
                context,
                status,
                request_bytes,
                response_bytes,
                elapsed,
            ),
            "nacelle.requests.in_flight"@,
            context.request_labels(),
        ) == 0,
{
    let name = "nacelle.connections.in_flight"@;
    let labels = context.connection_labels();
    let opened = accepted_changes(context);
    let closed = closed_changes(context, close_reason);
    lemma_gauge_moves_add(opened, closed, name, labels);
    assert(opened =~= seq![opened[0]] + seq![opened[1]]);
    lemma_gauge_moves_add(seq![opened[0]], seq![opened[1]], name, labels);
    lemma_gauge_moves_one(opened[0], name, labels);
    lemma_gauge_moves_one(opened[1], name, labels);
    assert(closed =~= seq![closed[0]] + seq![closed[1]]);
    lemma_gauge_moves_add(seq![closed[0]], seq![closed[1]], name, labels);
    lemma_gauge_moves_one(closed[0], name, labels);
    lemma_gauge_moves_one(closed[1], name, labels);
    lemma_started_moves(config, context);
    lemma_finished_moves(config, context, status, request_bytes, response_bytes, elapsed);
    lemma_gauge_moves_add(
        started_changes(config, context),
        finished_changes(config, context, status, request_bytes, response_bytes, elapsed),
        "nacelle.requests.in_flight"@,
        context.request_labels(),
    );
}

proof fn lemma_started_moves(config: NacelleRequestMetricsConfig, context: NacelleMetricsContext)
    ensures
        gauge_moves(
            started_changes(config, context),
            "nacelle.requests.in_flight"@,
            context.request_labels(),
        ) == if config.in_flight {
            1int
        } else {
            0int
        },
{
    let name = "nacelle.requests.in_flight"@;
    let labels = context.request_labels();
    let started = counted("nacelle.requests.started", labels, 1);
    let up = moved("nacelle.requests.in_flight", labels, true);
    lemma_gauge_moves_add(
        change_if(config.started, started),
        change_if(config.in_flight, up),
        name,
        labels,
    );
    lemma_gauge_moves_one(started, name, labels);
    lemma_gauge_moves_one(up, name, labels);
}

proof fn lemma_finished_moves(
    config: NacelleRequestMetricsConfig,
    context: NacelleMetricsContext,
    status: Seq<char>,
    request_bytes: nat,
    response_bytes: nat,
    elapsed: nat,
)
    ensures
        gauge_moves(
            finished_changes(config, context, status, request_bytes, response_bytes, elapsed),
            "nacelle.requests.in_flight"@,
            context.request_labels(),
        ) == if config.in_flight {
            -1int
        } else {
            0int
        },
{
    let name = "nacelle.requests.in_flight"@;
    let labels = context.request_labels();
    let outcome = context.outcome_labels(status);
    let completed = counted("nacelle.requests.completed", outcome, 1);
    let duration = timed("nacelle.request.duration_ms", outcome, elapsed);
    let received = counted("nacelle.request.bytes", outcome, request_bytes);
    let sent = counted("nacelle.response.bytes", outcome, response_bytes);
    let down = moved("nacelle.requests.in_flight", labels, false);
    let a = change_if(config.completed, completed);
    let b = change_if(config.duration_ms, duration);
    let c = change_if(config.byte_counts && request_bytes != 0, received);
    let d = change_if(config.byte_counts && response_bytes != 0, sent);
    lemma_gauge_moves_add(a, b, name, labels);
    lemma_gauge_moves_add(a + b, c, name, labels);
    lemma_gauge_moves_add(a + b + c, d, name, labels);
    lemma_gauge_moves_add(a + b + c + d, change_if(config.in_flight, down), name, labels);
    lemma_gauge_moves_one(completed, name, labels);
    lemma_gauge_moves_one(duration, name, labels);
    lemma_gauge_moves_one(received, name, labels);
    lemma_gauge_moves_one(sent, name, labels);
    lemma_gauge_moves_one(down, name, labels);
}

impl<Observer> NacelleTelemetry<Observer> {
    pub closed spec fn configured(&self) -> NacelleTelemetryConfig {
        self.config
    }

    pub closed spec fn observed_by(&self) -> Observer {
        self.observer
    }

    pub fn with_config(self, config: NacelleTelemetryConfig) -> (telemetry: Self)
        ensures
            telemetry.configured() == config,
            telemetry.observed_by() == self.observed_by(),
    {
        Self { config, ..self }
    }

    /// Replaces the observer.
    pub fn with_observer<Next>(self, observer: Next) -> (telemetry: NacelleTelemetry<Next>)
        ensures
            telemetry.configured() == self.configured(),
            telemetry.observed_by() == observer,
    {
        NacelleTelemetry { config: self.config, observer }
    }

    /// Adds an observer that is told after the others.
    pub fn with_additional_observer<Next>(self, observer: Next) -> (telemetry: NacelleTelemetry<
        CompositeObserver<Observer, Next>,
    >)
        ensures
            telemetry.configured() == self.configured(),
            telemetry.observed_by().parts() == (self.observed_by(), observer),
    {
        NacelleTelemetry {
            config: self.config,
            observer: CompositeObserver::new(self.observer, observer),
        }
    }

    pub fn with_request_metrics(self, request_metrics: NacelleRequestMetricsConfig) -> (telemetry: Self)
        ensures
            telemetry.configured() == (NacelleTelemetryConfig {
                request_metrics,
                ..self.configured()
            }),
            telemetry.observed_by() == self.observed_by(),
    {
        let config = NacelleTelemetryConfig { request_metrics, ..self.config };
        Self { config, ..self }
    }

    pub fn with_request_started_metrics(self, enabled: bool) -> (telemetry: Self)
        ensures
            telemetry.configured() == (NacelleTelemetryConfig {
                request_metrics: NacelleRequestMetricsConfig {
                    started: enabled,
                    ..self.configured().request_metrics
                },
                ..self.configured()
            }),
            telemetry.observed_by() == self.observed_by(),
    {
        let request_metrics = NacelleRequestMetricsConfig {
            started: enabled,
            ..self.config.request_metrics
        };
        self.with_request_metrics(request_metrics)
    }

    pub fn with_request_completed_metrics(self, enabled: bool) -> (telemetry: Self)
        ensures
            telemetry.configured() == (NacelleTelemetryConfig {
                request_metrics: NacelleRequestMetricsConfig {
                    completed: enabled,
                    ..self.configured().request_metrics
                },
                ..self.configured()
            }),
            telemetry.observed_by() == self.observed_by(),
    {
        let request_metrics = NacelleRequestMetricsConfig {
            completed: enabled,
            ..self.config.request_metrics
        };
        self.with_request_metrics(request_metrics)
    }

    pub fn with_request_in_flight_metrics(self, enabled: bool) -> (telemetry: Self)
        ensures
            telemetry.configured() == (NacelleTelemetryConfig {
                request_metrics: NacelleRequestMetricsConfig {
                    in_flight: enabled,
                    ..self.configured().request_metrics
                },
                ..self.configured()
            }),
            telemetry.observed_by() == self.observed_by(),
    {
        let request_metrics = NacelleRequestMetricsConfig {
            in_flight: enabled,
            ..self.config.request_metrics
        };
        self.with_request_metrics(request_metrics)
    }

    pub fn with_request_duration_metrics(self, enabled: bool) -> (telemetry: Self)
        ensures
            telemetry.configured() == (NacelleTelemetryConfig {
                request_metrics: NacelleRequestMetricsConfig {
                    duration_ms: enabled,
                    ..self.configured().request_metrics
                },
                ..self.configured()
            }),
            telemetry.observed_by() == self.observed_by(),
    {
        let request_metrics = NacelleRequestMetricsConfig {
            duration_ms: enabled,
            ..self.config.request_metrics
        };
        self.with_request_metrics(request_metrics)
    }

    pub fn with_byte_count_metrics(self, enabled: bool) -> (telemetry: Self)
        ensures
            telemetry.configured() == (NacelleTelemetryConfig {
                request_metrics: NacelleRequestMetricsConfig {
                    byte_counts: enabled,
                    ..self.configured().request_metrics
                },
                ..self.configured()
            }),
            telemetry.observed_by() == self.observed_by(),
    {
        let request_metrics = NacelleRequestMetricsConfig {
            byte_counts: enabled,
            ..self.config.request_metrics
        };
        self.with_request_metrics(request_metrics)
    }

    pub fn with_phase_duration_metrics(self, enabled: bool) -> (telemetry: Self)
        ensures
            telemetry.configured() == (NacelleTelemetryConfig {
                phase_duration_metrics: enabled,
                ..self.configured()
            }),
            telemetry.observed_by() == self.observed_by(),
    {
        let config = NacelleTelemetryConfig { phase_duration_metrics: enabled, ..self.config };
        Self { config, ..self }
    }

    pub fn config(&self) -> (config: NacelleTelemetryConfig)
        ensures
            config == self.configured(),
    {
        self.config
    }

    /// The observer that is told of events.
    pub fn observer(&self) -> (observer: &Observer)
        ensures
            *observer == self.observed_by(),
    {
        &self.observer
    }

    /// Whether metrics are kept at all.
    pub fn metrics_enabled(&self) -> (enabled: bool)
        ensures
            enabled,
    {
        true
    }

    pub fn request_metrics_enabled(&self) -> (enabled: bool)
        ensures
            enabled == ({
                let config = self.configured().request_metrics;
                config.started || config.completed || config.in_flight || config.duration_ms
                    || config.byte_counts
            }),
    {
        self.config.request_metrics.enabled()
    }

    pub fn request_duration_metrics_enabled(&self) -> (enabled: bool)
        ensures
            enabled == self.configured().request_metrics.duration_ms,
    {
        self.config.request_metrics.duration_ms
    }

    pub fn phase_duration_metrics_enabled(&self) -> (enabled: bool)
        ensures
            enabled == (PHASE_TIMING && self.configured().phase_duration_metrics),
    {
        PHASE_TIMING && self.config.phase_duration_metrics
    }

    /// Whether events of requests are emitted.
    pub fn request_events_enabled(&self) -> (enabled: bool)
        ensures
            enabled,
    {
        true
    }

    /// A connection of a listener is counted.
    pub fn connection_accepted(&self, context: &NacelleMetricsContext) -> (updates: Vec<MetricUpdate>)
        ensures
            changes(updates@) == accepted_changes(*context),
    {
        let mut updates = one_update(
            MetricUpdate::Counter {
                name: "nacelle.connections.accepted",
                labels: context.connection_attributes(),
                increment: 1,
            },
        );
        push_update(
            &mut updates,
            MetricUpdate::Gauge {
                name: "nacelle.connections.in_flight",
                labels: context.connection_attributes(),
                up: true,
                amount: 1,
            },
        );
        assert(changes(updates@) =~= accepted_changes(*context));
        updates
    }

    /// A connection of a listener has ended.
    pub fn connection_closed(&self, context: &NacelleMetricsContext, close_reason: &'static str) -> (updates:
        Vec<MetricUpdate>)
        ensures
            changes(updates@) == closed_changes(*context, close_reason@),
    {
        let mut updates = one_update(
            MetricUpdate::Counter {
                name: "nacelle.connections.closed",
                labels: attributes_with_label(
                    &context.connection_attributes(),
                    "close_reason",
                    close_reason,
                ),
                increment: 1,
            },
        );
        push_update(
            &mut updates,
            MetricUpdate::Gauge {
                name: "nacelle.connections.in_flight",
                labels: context.connection_attributes(),
                up: false,
                amount: 1,
            },
        );
        assert(changes(updates@) =~= closed_changes(*context, close_reason@));
        updates
    }

    /// A request of a listener begins.
    pub fn request_started_with_context(&self, context: &NacelleMetricsContext) -> (updates: Vec<
        MetricUpdate,
    >)
        ensures
            changes(updates@) == started_changes(self.configured().request_metrics, *context),
    {
        let mut updates = no_updates();
        if self.config.request_metrics.started {
            push_update(
                &mut updates,
                MetricUpdate::Counter {
                    name: "nacelle.requests.started",
                    labels: context.request_attributes(),
                    increment: 1,
                },
            );
        }
        if self.config.request_metrics.in_flight {
            push_update(
                &mut updates,
                MetricUpdate::Gauge {
                    name: "nacelle.requests.in_flight",
                    labels: context.request_attributes(),
                    up: true,
                    amount: 1,
                },
            );
        }
        assert(changes(updates@) =~= started_changes(self.config.request_metrics, *context));
        updates
    }

    /// A request of a listener has ended with `status`.
    pub fn request_finished_with_context(
        &self,
        context: &NacelleMetricsContext,
        status: &'static str,
        request_bytes: usize,
        response_bytes: usize,
        elapsed: Duration,
    ) -> (updates: Vec<MetricUpdate>)
        ensures
            changes(updates@) == finished_changes(
                self.configured().request_metrics,
                *context,
                status@,
                request_bytes as nat,
                response_bytes as nat,
                elapsed@,
            ),
    {
        let config = self.config.request_metrics;
        let mut updates = no_updates();
        if config.completed {
            push_update(
                &mut updates,
                MetricUpdate::Counter {
                    name: "nacelle.requests.completed",
                    labels: context.outcome_attributes(status),
                    increment: 1,
                },
            );
        }
        if config.duration_ms {
            push_update(
                &mut updates,
                MetricUpdate::Histogram {
                    name: "nacelle.request.duration_ms",
                    labels: context.outcome_attributes(status),
                    elapsed,
                },
            );
        }
        if config.byte_counts && request_bytes != 0 {
            push_update(
                &mut updates,
                MetricUpdate::Counter {
                    name: "nacelle.request.bytes",
                    labels: context.outcome_attributes(status),
                    increment: request_bytes as u64,
                },
            );
        }
        if config.byte_counts && response_bytes != 0 {
            push_update(
                &mut updates,
                MetricUpdate::Counter {
                    name: "nacelle.response.bytes",
                    labels: context.outcome_attributes(status),
                    increment: response_bytes as u64,
                },
            );
        }
        if config.in_flight {
            push_update(
                &mut updates,
                MetricUpdate::Gauge {
                    name: "nacelle.requests.in_flight",
                    labels: context.request_attributes(),
                    up: false,
                    amount: 1,
                },
            );
        }
        assert(changes(updates@) =~= finished_changes(
            config,
            *context,
            status@,
            request_bytes as nat,
            response_bytes as nat,
            elapsed@,
        ));
        updates
    }

    /// A phase of a request took `elapsed`.
    pub fn phase_duration(
        &self,
        context: &NacelleMetricsContext,
        phase: &'static str,
        elapsed: Duration,
    ) -> (updates: Vec<MetricUpdate>)
        ensures
            changes(updates@) == change_if(
                PHASE_TIMING && self.configured().phase_duration_metrics && is_phase(phase@),
                timed(
                    "nacelle.phase.duration_ms",
                    context.request_labels().push(("phase"@, phase@)),
                    elapsed@,
                ),
            ),
    {
        if !self.phase_duration_metrics_enabled() || !known_phase(phase) {
            return no_updates();
        }
        one_update(
            MetricUpdate::Histogram {
                name: "nacelle.phase.duration_ms",
                labels: attributes_with_label(&context.request_attributes(), "phase", phase),
                elapsed,
            },
        )
    }

    /// An operation of a request failed.
    pub fn operation_error(
        &self,
        context: &NacelleMetricsContext,
        phase: &'static str,
        error: &NacelleError,
    ) -> (updates: Vec<MetricUpdate>)
        ensures
            changes(updates@) == seq![
                counted(
                    "nacelle.errors",
                    context.request_labels().push(("phase"@, phase@)).push(
                        ("error_kind"@, kind_of(*error)@),
                    ),
                    1,
                ),
            ] + match *error {
                NacelleError::ResourceLimit(limit) => seq![
                    counted(
                        "nacelle.resource_limit.rejections",
                        context.request_labels().push(("limit"@, limit@)).push(
                            ("phase"@, phase@),
                        ),
                        1,
                    ),
                ],
                _ => Seq::empty(),
            },
    {
        let attributes = attributes_with_label(&context.request_attributes(), "phase", phase);
        let mut updates = one_update(
            MetricUpdate::Counter {
                name: "nacelle.errors",
                labels: attributes_with_label(&attributes, "error_kind", error_kind(error)),
                increment: 1,
            },
        );
        if let NacelleError::ResourceLimit(limit) = error {
            let attributes = attributes_with_label(&context.request_attributes(), "limit", limit);
            push_update(
                &mut updates,
                MetricUpdate::Counter {
                    name: "nacelle.resource_limit.rejections",
                    labels: attributes_with_label(&attributes, "phase", phase),
                    increment: 1,
                },
            );
        }
        updates
    }
}

impl<Observer: NacelleTelemetryObserver> NacelleTelemetry<Observer> {
    /// Whether `event` alone leads from `before` to `after`.
    pub open spec fn told(before: Self, event: NacelleTelemetryEvent, after: Self) -> bool {
        &&& after.configured() == before.configured()
        &&& Observer::observes(before.observed_by(), event, after.observed_by())
    }

    /// Whether the observer does anything with events.
    pub fn observer_enabled(&self) -> (enabled: bool)
        ensures
            enabled == Observer::ENABLED,
    {
        Observer::ENABLED
    }

    fn record(
        &mut self,
        kind: NacelleTelemetryEventKind,
        transport: Option<NacelleTransport>,
        reason: Option<&'static str>,
        count: u64,
    )
        ensures
            Self::told(*old(self), event_of(kind, transport, reason, count), *final(self)),
    {
        self.observer.record(NacelleTelemetryEvent { kind, transport, reason, count });
    }

    /// What [`Self::listener_configured`] tells, and what it counts.
    pub open spec fn tells_listener_configured(
        before: Self,
        transport: NacelleTransport,
        after: Self,
    ) -> bool {
        &&& Self::told(
            before,
            event_of(NacelleTelemetryEventKind::ListenerConfigured, Some(transport), None, 1),
            after,
        )
    }

    pub fn listener_configured(&mut self, transport: NacelleTransport)
        ensures
            Self::tells_listener_configured(*old(self), transport, *final(self)),
    {
        self.record(NacelleTelemetryEventKind::ListenerConfigured, Some(transport), None, 1);
    }

    /// What [`Self::listener_failed`] tells, and what it counts.
    pub open spec fn tells_listener_failed(
        before: Self,
        transport: NacelleTransport,
        error: NacelleError,
        after: Self,
    ) -> bool {
        &&& Self::told(
            before,
            event_of(
                NacelleTelemetryEventKind::ListenerFailed,
                Some(transport),
                reason_of(error),
                1,
            ),
            after,
        )
    }

    pub fn listener_failed(&mut self, transport: NacelleTransport, error: &NacelleError)
        ensures
            Self::tells_listener_failed(*old(self), transport, *error, *final(self)),
    {
        self.record(
            NacelleTelemetryEventKind::ListenerFailed,
            Some(transport),
            error_reason(error),
            1,
        );
    }

    /// What [`Self::connection_opened`] tells, and what it counts.
    pub open spec fn tells_connection_opened(
        before: Self,
        transport: NacelleTransport,
        updates: Vec<MetricUpdate>,
        after: Self,
    ) -> bool {
        &&& Self::told(
            before,
            event_of(NacelleTelemetryEventKind::ConnectionOpened, Some(transport), None, 1),
            after,
        )
        &&& changes(updates@) == seq![
            counted("nacelle.connections.opened", transport_label(transport), 1),
        ]
    }

    pub fn connection_opened(&mut self, transport: NacelleTransport) -> (updates: Vec<MetricUpdate>)
        ensures
            Self::tells_connection_opened(*old(self), transport, updates, *final(self)),
    {
        self.record(NacelleTelemetryEventKind::ConnectionOpened, Some(transport), None, 1);
        one_update(
            MetricUpdate::Counter {
                name: "nacelle.connections.opened",
                labels: one_label("transport", transport.as_str()),
                increment: 1,
            },
        )
    }

    /// What [`Self::connection_rejected`] tells, and what it counts.
    pub open spec fn tells_connection_rejected(
        before: Self,
        transport: NacelleTransport,
        reason: &'static str,
        updates: Vec<MetricUpdate>,
        after: Self,
    ) -> bool {
        &&& Self::told(
            before,
            event_of(
                NacelleTelemetryEventKind::ConnectionRejected,
                Some(transport),
                Some(reason),
                1,
            ),
            after,
        )
        &&& changes(updates@) == seq![
            counted(
                "nacelle.rejections",
                seq![("transport"@, transport@), ("reason"@, reason@)],
                1,
            ),
        ]
    }

    pub fn connection_rejected(&mut self, transport: NacelleTransport, reason: &'static str) -> (updates:
        Vec<MetricUpdate>)
        ensures
            Self::tells_connection_rejected(*old(self), transport, reason, updates, *final(self)),
    {
        self.record(
            NacelleTelemetryEventKind::ConnectionRejected,
            Some(transport),
            Some(reason),
            1,
        );
        one_update(
            MetricUpdate::Counter {
                name: "nacelle.rejections",
                labels: two_labels("transport", transport.as_str(), "reason", reason),
                increment: 1,
            },
        )
    }

    /// What [`Self::request_rejected`] tells, and what it counts.
    pub open spec fn tells_request_rejected(
        before: Self,
        transport: NacelleTransport,
        reason: &'static str,
        updates: Vec<MetricUpdate>,
        after: Self,
    ) -> bool {
        &&& Self::told(
            before,
            event_of(
                NacelleTelemetryEventKind::RequestRejected,
                Some(transport),
                Some(reason),
                1,
            ),
            after,
        )
        &&& changes(updates@) == seq![
            counted(
                "nacelle.rejections",
                seq![("transport"@, transport@), ("reason"@, reason@)],
                1,
            ),
        ]
    }

    pub fn request_rejected(&mut self, transport: NacelleTransport, reason: &'static str) -> (updates:
        Vec<MetricUpdate>)
        ensures
            Self::tells_request_rejected(*old(self), transport, reason, updates, *final(self)),
    {
        self.record(NacelleTelemetryEventKind::RequestRejected, Some(transport), Some(reason), 1);
        one_update(
            MetricUpdate::Counter {
                name: "nacelle.rejections",
                labels: two_labels("transport", transport.as_str(), "reason", reason),
                increment: 1,
            },
        )
    }

    /// What [`Self::request_completed`] tells, and what it counts.
    pub open spec fn tells_request_completed(
        before: Self,
        transport: NacelleTransport,
        request_bytes: usize,
        response_bytes: usize,
        elapsed: Duration,
        updates: Vec<MetricUpdate>,
        after: Self,
    ) -> bool {
        &&& Self::told(
            before,
            event_of(NacelleTelemetryEventKind::RequestCompleted, Some(transport), None, 1),
            after,
        )
        &&& changes(updates@) == completed_changes(
            before.configured().request_metrics,
            transport,
            request_bytes as nat,
            response_bytes as nat,
            elapsed@,
        )
    }

    /// A request of `transport` was answered.
    pub fn request_completed(
        &mut self,
        transport: NacelleTransport,
        request_bytes: usize,
        response_bytes: usize,
        elapsed: Duration,
    ) -> (updates: Vec<MetricUpdate>)
        ensures
            Self::tells_request_completed(
                *old(self),
                transport,
                request_bytes,
                response_bytes,
                elapsed,
                updates,
                *final(self),
            ),
    {
        self.request_completed_inner(transport, request_bytes, response_bytes, elapsed, true)
    }

    /// A request of `transport` was answered; its metrics are kept elsewhere.
    pub fn request_completed_without_metrics(&mut self, transport: NacelleTransport)
        ensures
            Self::told(
                *old(self),
                event_of(NacelleTelemetryEventKind::RequestCompleted, Some(transport), None, 1),
                *final(self),
            ),
    {
        let updates = self.request_completed_inner(transport, 0, 0, Duration::from_secs(0), false);
    }

    fn request_completed_inner(
        &mut self,
        transport: NacelleTransport,
        request_bytes: usize,
        response_bytes: usize,
        elapsed: Duration,
        emit_metrics: bool,
    ) -> (updates: Vec<MetricUpdate>)
        ensures
            Self::told(
                *old(self),
                event_of(NacelleTelemetryEventKind::RequestCompleted, Some(transport), None, 1),
                *final(self),
            ),
            changes(updates@) == if emit_metrics {
                completed_changes(
                    old(self).configured().request_metrics,
                    transport,
                    request_bytes as nat,
                    response_bytes as nat,
                    elapsed@,
                )
            } else {
                Seq::empty()
            },
    {
        self.record(NacelleTelemetryEventKind::RequestCompleted, Some(transport), None, 1);
        let config = self.config.request_metrics;
        let mut updates = no_updates();
        if !emit_metrics {
            return updates;
        }
        if config.completed {
            push_update(
                &mut updates,
                MetricUpdate::Counter {
                    name: "nacelle.requests.completed",
                    labels: two_labels("transport", transport.as_str(), "status", "ok"),
                    increment: 1,
                },
            );
        }
        if config.duration_ms {
            push_update(
                &mut updates,
                MetricUpdate::Histogram {
                    name: "nacelle.request.duration_ms",
                    labels: two_labels("transport", transport.as_str(), "status", "ok"),
                    elapsed,
                },
            );
        }
        if config.byte_counts {
            if request_bytes != 0 {
                push_update(
                    &mut updates,
                    MetricUpdate::Counter {
                        name: "nacelle.request.bytes",
                        labels: two_labels("transport", transport.as_str(), "status", "ok"),
                        increment: request_bytes as u64,
                    },
                );
            }
            if response_bytes != 0 {
                push_update(
                    &mut updates,
                    MetricUpdate::Counter {
                        name: "nacelle.response.bytes",
                        labels: two_labels("transport", transport.as_str(), "status", "ok"),
                        increment: response_bytes as u64,
                    },
                );
            }
        }
        assert(changes(updates@) =~= completed_changes(
            config,
            transport,
            request_bytes as nat,
            response_bytes as nat,
            elapsed@,
        ));
        updates
    }

    /// What [`Self::request_failed`] tells, and what it counts.
    pub open spec fn tells_request_failed(
        before: Self,
        transport: NacelleTransport,
        elapsed: Duration,
        error: NacelleError,
        updates: Vec<MetricUpdate>,
        after: Self,
    ) -> bool {
        &&& Self::told(
            before,
            event_of(
                NacelleTelemetryEventKind::RequestFailed,
                Some(transport),
                reason_of(error),
                1,
            ),
            after,
        )
        &&& changes(updates@) == failed_changes(
            before.configured().request_metrics,
            transport,
            elapsed@,
        )
    }

    /// A request of `transport` failed.
    pub fn request_failed(
        &mut self,
        transport: NacelleTransport,
        elapsed: Duration,
        error: &NacelleError,
    ) -> (updates: Vec<MetricUpdate>)
        ensures
            Self::tells_request_failed(
                *old(self),
                transport,
                elapsed,
                *error,
                updates,
                *final(self),
            ),
    {
        self.request_failed_inner(transport, elapsed, error, true)
    }

    /// A request of `transport` failed; its metrics are kept elsewhere.
    pub fn request_failed_without_metrics(
        &mut self,
        transport: NacelleTransport,
        error: &NacelleError,
    )
        ensures
            Self::told(
                *old(self),
                event_of(
                    NacelleTelemetryEventKind::RequestFailed,
                    Some(transport),
                    reason_of(*error),
                    1,
                ),
                *final(self),
            ),
    {
        let updates = self.request_failed_inner(transport, Duration::from_secs(0), error, false);
    }

    fn request_failed_inner(
        &mut self,
        transport: NacelleTransport,
        elapsed: Duration,
        error: &NacelleError,
        emit_metrics: bool,
    ) -> (updates: Vec<MetricUpdate>)
        ensures
            Self::told(
                *old(self),
                event_of(
                    NacelleTelemetryEventKind::RequestFailed,
                    Some(transport),
                    reason_of(*error),
                    1,
                ),
                *final(self),
            ),
            changes(updates@) == if emit_metrics {
                failed_changes(old(self).configured().request_metrics, transport, elapsed@)
            } else {
                Seq::empty()
            },
    {
        self.record(
            NacelleTelemetryEventKind::RequestFailed,
            Some(transport),
            error_reason(error),
            1,
        );
        if !emit_metrics {
            return no_updates();
        }
        let mut updates = one_update(
            MetricUpdate::Counter {
                name: "nacelle.requests.failed",
                labels: one_label("transport", transport.as_str()),
                increment: 1,
            },
        );
        if self.config.request_metrics.duration_ms {
            push_update(
                &mut updates,
                MetricUpdate::Histogram {
                    name: "nacelle.request.duration_ms",
                    labels: two_labels("transport", transport.as_str(), "status", "error"),
                    elapsed,
                },
            );
        }
        assert(changes(updates@) =~= failed_changes(
            self.config.request_metrics,
            transport,
            elapsed@,
        ));
        updates
    }

    /// What [`Self::timeout`] tells, and what it counts.
    pub open spec fn tells_timeout(
        before: Self,
        transport: NacelleTransport,
        operation: &'static str,
        updates: Vec<MetricUpdate>,
        after: Self,
    ) -> bool {
        &&& Self::told(
            before,
            event_of(
                NacelleTelemetryEventKind::Timeout,
                Some(transport),
                Some(operation),
                1,
            ),
            after,
        )
        &&& changes(updates@) == seq![
            counted(
                "nacelle.timeouts",
                seq![("transport"@, transport@), ("operation"@, operation@)],
                1,
            ),
        ]
    }

    pub fn timeout(&mut self, transport: NacelleTransport, operation: &'static str) -> (updates: Vec<
        MetricUpdate,
    >)
        ensures
            Self::tells_timeout(*old(self), transport, operation, updates, *final(self)),
    {
        self.record(NacelleTelemetryEventKind::Timeout, Some(transport), Some(operation), 1);
        one_update(
            MetricUpdate::Counter {
                name: "nacelle.timeouts",
                labels: two_labels("transport", transport.as_str(), "operation", operation),
                increment: 1,
            },
        )
    }

    /// What [`Self::shutdown_event`] tells, and what it counts.
    pub open spec fn tells_shutdown_event(
        before: Self,
        kind: NacelleTelemetryEventKind,
        transport: NacelleTransport,
        updates: Vec<MetricUpdate>,
        after: Self,
    ) -> bool {
        &&& Self::told(before, event_of(kind, Some(transport), None, 1), after)
        &&& changes(updates@) == seq![
            counted(
                "nacelle.shutdown_events",
                seq![("transport"@, transport@), ("stage"@, stage_of(kind)@)],
                1,
            ),
        ]
    }

    pub fn shutdown_event(&mut self, kind: NacelleTelemetryEventKind, transport: NacelleTransport) -> (updates:
        Vec<MetricUpdate>)
        ensures
            Self::tells_shutdown_event(*old(self), kind, transport, updates, *final(self)),
    {
        self.record(kind, Some(transport), None, 1);
        one_update(
            MetricUpdate::Counter {
                name: "nacelle.shutdown_events",
                labels: two_labels("transport", transport.as_str(), "stage", shutdown_stage(kind)),
                increment: 1,
            },
        )
    }

    /// What [`Self::shutdown_requested`] tells, and what it counts.
    pub open spec fn tells_shutdown_requested(
        before: Self,
        updates: Vec<MetricUpdate>,
        after: Self,
    ) -> bool {
        &&& Self::told(
            before,
            event_of(NacelleTelemetryEventKind::ShutdownRequested, None, None, 1),
            after,
        )
        &&& changes(updates@) == seq![
            counted(
                "nacelle.shutdown_events",
                seq![("transport"@, "host"@), ("stage"@, "requested"@)],
                1,
            ),
        ]
    }

    pub fn shutdown_requested(&mut self) -> (updates: Vec<MetricUpdate>)
        ensures
            Self::tells_shutdown_requested(*old(self), updates, *final(self)),
    {
        self.record(NacelleTelemetryEventKind::ShutdownRequested, None, None, 1);
        one_update(
            MetricUpdate::Counter {
                name: "nacelle.shutdown_events",
                labels: two_labels("transport", "host", "stage", "requested"),
                increment: 1,
            },
        )
    }

    /// What [`Self::connections_aborted`] tells, and what it counts.
    pub open spec fn tells_connections_aborted(
        before: Self,
        transport: NacelleTransport,
        count: usize,
        updates: Vec<MetricUpdate>,
        after: Self,
    ) -> bool {
        &&& Self::told(
            before,
            event_of(
                NacelleTelemetryEventKind::ConnectionsAborted,
                Some(transport),
                None,
                count as u64,
            ),
            after,
        )
        &&& changes(updates@) == seq![
            counted("nacelle.connection_aborts", transport_label(transport), count as nat),
        ]
    }

    pub fn connections_aborted(&mut self, transport: NacelleTransport, count: usize) -> (updates: Vec<
        MetricUpdate,
    >)
        ensures
            Self::tells_connections_aborted(*old(self), transport, count, updates, *final(self)),
    {
        self.record(
            NacelleTelemetryEventKind::ConnectionsAborted,
            Some(transport),
            None,
            count as u64,
        );
        one_update(
            MetricUpdate::Counter {
                name: "nacelle.connection_aborts",
                labels: one_label("transport", transport.as_str()),
                increment: count as u64,
            },
        )
    }

    /// What [`Self::response_body_bytes`] tells, and what it counts.
    pub open spec fn tells_response_body_bytes(
        before: Self,
        transport: NacelleTransport,
        bytes: usize,
        updates: Vec<MetricUpdate>,
        after: Self,
    ) -> bool {
        &&& if bytes == 0 {
            after == before
        } else {
            Self::told(
                before,
                event_of(
                    NacelleTelemetryEventKind::ResponseBodyBytes,
                    Some(transport),
                    None,
                    bytes as u64,
                ),
                after,
            )
        }
        &&& changes(updates@) == change_if(
            bytes != 0 && before.configured().request_metrics.byte_counts,
            counted("nacelle.response.bytes", transport_label(transport), bytes as nat),
        )
    }

    /// Bytes of a response body were sent; nothing happens where there were none.
    pub fn response_body_bytes(&mut self, transport: NacelleTransport, bytes: usize) -> (updates: Vec<
        MetricUpdate,
    >)
        ensures
            Self::tells_response_body_bytes(*old(self), transport, bytes, updates, *final(self)),
    {
        if bytes == 0 {
            return no_updates();
        }
        self.record(
            NacelleTelemetryEventKind::ResponseBodyBytes,
            Some(transport),
            None,
            bytes as u64,
        );
        if !self.config.request_metrics.byte_counts {
            return no_updates();
        }
        one_update(
            MetricUpdate::Counter {
                name: "nacelle.response.bytes",
                labels: one_label("transport", transport.as_str()),
                increment: bytes as u64,
            },
        )
    }
}

/// Every event reaches each of two observers: what a composite was told, its
/// first and its second part were told.
pub proof fn law_composite_observers_see_every_event<
    First: NacelleTelemetryObserver,
    Second: NacelleTelemetryObserver,
>(
    before: NacelleTelemetry<CompositeObserver<First, Second>>,
    event: NacelleTelemetryEvent,
    after: NacelleTelemetry<CompositeObserver<First, Second>>,
)
    requires
        NacelleTelemetry::<CompositeObserver<First, Second>>::told(before, event, after),
    ensures
        First::observes(before.observed_by().parts().0, event, after.observed_by().parts().0),
        Second::observes(before.observed_by().parts().1, event, after.observed_by().parts().1),
{
}

} // verus!

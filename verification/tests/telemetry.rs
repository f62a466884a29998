use nacelle::error::NacelleError;
use nacelle::telemetry::context::known_phase;
use nacelle::telemetry::event::{error_kind, error_reason, shutdown_stage};
use nacelle::telemetry::tcp;
use nacelle::telemetry::{
    CompositeObserver, Label, MetricUpdate, NacelleInMemoryObserver, NacelleInMemoryTelemetrySink,
    NacelleMetricsContext, NacelleTelemetry, NacelleTelemetryEvent, NacelleTelemetryEventKind,
    NacelleTelemetryObserver, NoopObserver,
};
use nacelle::time::Duration;
use nacelle::transport::NacelleTransport;

const TCP: &str = "tcp";
const HTTP: &str = "http";

fn labels(labels: &[Label]) -> Vec<(&'static str, &str)> {
    labels
        .iter()
        .map(|label| (label.key, label.value.as_str()))
        .collect()
}

#[test]
fn in_memory_sink_records_rejection_timeout_and_shutdown_events() {
    let mut telemetry =
        tcp::NacelleTelemetry::new().with_sink(NacelleInMemoryTelemetrySink::new());

    telemetry.connection_rejected(NacelleTransport::new(TCP), "connections");
    telemetry.request_rejected(NacelleTransport::new(HTTP), "host");
    telemetry.timeout(NacelleTransport::new(TCP), "request_body_read");
    telemetry.shutdown_requested();
    telemetry.shutdown_event(
        NacelleTelemetryEventKind::DrainCompleted,
        NacelleTransport::new(TCP),
    );

    let events = telemetry.sink().expect("sink").events();
    assert_eq!(
        events.iter().map(|event| event.kind).collect::<Vec<_>>(),
        vec![
            NacelleTelemetryEventKind::ConnectionRejected,
            NacelleTelemetryEventKind::RequestRejected,
            NacelleTelemetryEventKind::Timeout,
            NacelleTelemetryEventKind::ShutdownRequested,
            NacelleTelemetryEventKind::DrainCompleted,
        ]
    );
    assert_eq!(events[0].reason, Some("connections"));
    assert_eq!(events[1].reason, Some("host"));
    assert_eq!(events[2].reason, Some("request_body_read"));
    assert!(events[3].transport.is_none());
}

#[test]
fn telemetry_config_keeps_opcode_labels_opt_in() {
    let telemetry: tcp::NacelleTelemetry<NacelleInMemoryTelemetrySink> = tcp::NacelleTelemetry::new();

    assert!(telemetry.config().tcp_metrics);
    assert!(!telemetry.config().tcp_opcode_labels);

    let telemetry = telemetry.with_tcp_opcode_labels(true);

    assert!(telemetry.config().tcp_opcode_labels);
}

#[test]
fn in_memory_observer_records_rejection_timeout_and_shutdown_events() {
    let mut telemetry = NacelleTelemetry::new().with_observer(NacelleInMemoryObserver::new());

    telemetry.connection_rejected(NacelleTransport::new(TCP), "connections");
    telemetry.request_rejected(NacelleTransport::new(HTTP), "host");
    telemetry.timeout(NacelleTransport::new(TCP), "request_body_read");
    telemetry.shutdown_requested();
    telemetry.shutdown_event(
        NacelleTelemetryEventKind::DrainCompleted,
        NacelleTransport::new(TCP),
    );

    let events = telemetry.observer().events();
    assert_eq!(
        events.iter().map(|event| event.kind).collect::<Vec<_>>(),
        vec![
            NacelleTelemetryEventKind::ConnectionRejected,
            NacelleTelemetryEventKind::RequestRejected,
            NacelleTelemetryEventKind::Timeout,
            NacelleTelemetryEventKind::ShutdownRequested,
            NacelleTelemetryEventKind::DrainCompleted,
        ]
    );
    assert_eq!(events[0].reason, Some("connections"));
    assert_eq!(events[1].reason, Some("host"));
    assert_eq!(events[2].reason, Some("request_body_read"));
    assert!(events[3].transport.is_none());
}

#[test]
fn concrete_and_composite_observers_record_without_dynamic_adapter() {
    let mut telemetry = NacelleTelemetry::new()
        .with_observer(NacelleInMemoryObserver::new())
        .with_additional_observer(NacelleInMemoryObserver::new());

    telemetry.timeout(NacelleTransport::new(TCP), "test");

    assert_eq!(telemetry.observer().first().events().len(), 1);
    assert_eq!(telemetry.observer().second().events().len(), 1);
    assert!(telemetry.request_events_enabled());
    assert!(!<NoopObserver as NacelleTelemetryObserver>::ENABLED);
    assert!(!<CompositeObserver<NoopObserver, NoopObserver> as NacelleTelemetryObserver>::ENABLED);
    assert!(
        <CompositeObserver<NoopObserver, NacelleInMemoryObserver> as NacelleTelemetryObserver>::ENABLED
    );
}

#[test]
fn request_duration_metrics_are_opt_in() {
    let telemetry = NacelleTelemetry::default();

    assert!(telemetry.config().request_metrics.started);
    assert!(telemetry.config().request_metrics.completed);
    assert!(!telemetry.config().request_metrics.in_flight);
    assert!(!telemetry.config().request_metrics.duration_ms);
    assert!(telemetry.config().request_metrics.byte_counts);
    assert!(!telemetry.config().phase_duration_metrics);
    assert!(!telemetry.request_duration_metrics_enabled());

    let telemetry = telemetry
        .with_request_started_metrics(false)
        .with_request_completed_metrics(false)
        .with_request_duration_metrics(true)
        .with_byte_count_metrics(false)
        .with_request_in_flight_metrics(true)
        .with_phase_duration_metrics(true);

    assert!(!telemetry.config().request_metrics.started);
    assert!(!telemetry.config().request_metrics.completed);
    assert!(telemetry.config().request_metrics.in_flight);
    assert!(telemetry.config().request_metrics.duration_ms);
    assert!(!telemetry.config().request_metrics.byte_counts);
    assert!(telemetry.config().phase_duration_metrics);
    assert!(telemetry.request_duration_metrics_enabled());
    assert!(telemetry.phase_duration_metrics_enabled());
}

#[test]
fn request_duration_metrics_require_runtime_activation() {
    let duration_disabled = NacelleTelemetry::default().with_request_duration_metrics(false);
    assert!(!duration_disabled.request_duration_metrics_enabled());

    let enabled = NacelleTelemetry::default().with_request_duration_metrics(true);
    assert!(enabled.request_duration_metrics_enabled());
}

#[test]
fn completed_requests_change_their_metrics() {
    let mut telemetry = NacelleTelemetry::default().with_request_duration_metrics(true);
    let updates = telemetry.request_completed(
        NacelleTransport::new(TCP),
        3,
        0,
        Duration::from_millis(250),
    );
    assert_eq!(updates.len(), 3);
    match &updates[0] {
        MetricUpdate::Counter {
            name,
            labels: own,
            increment,
        } => {
            assert_eq!(*name, "nacelle.requests.completed");
            assert_eq!(labels(own), vec![("transport", "tcp"), ("status", "ok")]);
            assert_eq!(*increment, 1);
        }
        other => panic!("unexpected update {other:?}"),
    }
    assert!(matches!(
        &updates[1],
        MetricUpdate::Histogram { name: "nacelle.request.duration_ms", elapsed, .. }
            if *elapsed == Duration::from_millis(250)
    ));
    assert!(matches!(
        &updates[2],
        MetricUpdate::Counter {
            name: "nacelle.request.bytes",
            increment: 3,
            ..
        }
    ));

    let failed = telemetry.request_failed(
        NacelleTransport::new(TCP),
        Duration::from_millis(1),
        &NacelleError::UnexpectedEof,
    );
    assert_eq!(failed.len(), 2);
}

#[test]
fn events_are_told_without_metrics_too() {
    let mut telemetry = NacelleTelemetry::new().with_observer(NacelleInMemoryObserver::new());
    telemetry.listener_configured(NacelleTransport::new(TCP));
    telemetry.listener_failed(NacelleTransport::new(TCP), &NacelleError::ConnectionClosed);
    telemetry.request_completed_without_metrics(NacelleTransport::new(TCP));
    telemetry.request_failed_without_metrics(
        NacelleTransport::new(TCP),
        &NacelleError::Timeout("handler"),
    );
    telemetry.connections_aborted(NacelleTransport::new(TCP), 4);
    telemetry.response_body_bytes(NacelleTransport::new(TCP), 9);
    let events = telemetry.observer().events();
    let told: Vec<(NacelleTelemetryEventKind, Option<&'static str>, u64)> = events
        .iter()
        .map(|event| (event.kind, event.reason, event.count))
        .collect();
    assert_eq!(
        told,
        vec![
            (NacelleTelemetryEventKind::ListenerConfigured, None, 1),
            (
                NacelleTelemetryEventKind::ListenerFailed,
                Some("connection_closed"),
                1
            ),
            (NacelleTelemetryEventKind::RequestCompleted, None, 1),
            (
                NacelleTelemetryEventKind::RequestFailed,
                Some("handler"),
                1
            ),
            (NacelleTelemetryEventKind::ConnectionsAborted, None, 4),
            (NacelleTelemetryEventKind::ResponseBodyBytes, None, 9),
        ]
    );
}

#[test]
fn listeners_label_their_metrics() {
    let context = NacelleMetricsContext::new(
        NacelleTransport::new(TCP),
        "edge".to_string(),
        "framed",
        "rustls",
    );
    assert_eq!(
        labels(&context.outcome_attributes("error")),
        vec![
            ("listener", "edge"),
            ("transport", "tcp"),
            ("tls", "rustls"),
            ("protocol", "framed"),
            ("status", "error"),
        ]
    );
    assert_eq!(
        labels(&context.outcome_attributes("whatever"))[4],
        ("status", "ok")
    );
    let telemetry = NacelleTelemetry::default();
    assert!(!telemetry.connection_accepted(&context).is_empty());
    assert!(!telemetry.request_started_with_context(&context).is_empty());
    assert!(known_phase("decode"));
    assert!(!known_phase("dance"));
}

#[test]
fn errors_have_reasons_and_kinds() {
    assert_eq!(
        error_reason(&NacelleError::FrameTooLarge { len: 2, max: 1 }),
        Some("frame_too_large")
    );
    assert_eq!(
        error_reason(&NacelleError::ResourceLimit("connections")),
        Some("connections")
    );
    assert_eq!(
        error_kind(&NacelleError::ResourceLimit("connections")),
        "resource_limit"
    );
    assert_eq!(
        error_kind(&NacelleError::Io("gone".to_string())),
        "io"
    );
    assert_eq!(
        shutdown_stage(NacelleTelemetryEventKind::DrainTimedOut),
        "drain_timed_out"
    );
    assert_eq!(shutdown_stage(NacelleTelemetryEventKind::Timeout), "other");
}

#[test]
fn opcodes_are_labelled_on_demand() {
    let context = tcp::NacelleTcpMetricsContext::new(
        NacelleTransport::new(TCP),
        "edge".to_string(),
        "framed",
        "none",
        Some(7),
    );
    assert!(labels(&context.request_attributes(true)).contains(&("opcode", "7")));
    assert!(!labels(&context.request_attributes(false))
        .iter()
        .any(|(key, _)| *key == "opcode"));
    assert!(!labels(&context.without_opcode().request_attributes(true)).contains(&("opcode", "7")));
    let mut telemetry: tcp::NacelleTelemetry<NacelleInMemoryTelemetrySink> =
        tcp::NacelleTelemetry::new();
    assert!(!telemetry.tcp_connection_accepted(&context).is_empty());
    assert!(telemetry
        .with_tcp_metrics(false)
        .tcp_connection_accepted(&context)
        .is_empty());
    telemetry = tcp::NacelleTelemetry::new();
    assert!(telemetry.register_runtime_state());
    assert!(!telemetry.register_runtime_state());
}

struct Counting(u64);

impl NacelleTelemetryObserver for Counting {
    const ENABLED: bool = true;

    fn record(&mut self, event: NacelleTelemetryEvent) {
        self.0 += event.count;
    }
}

#[test]
fn observers_can_be_written_by_others() {
    let mut telemetry = NacelleTelemetry::new().with_observer(Counting(0));
    assert!(telemetry.observer_enabled());
    telemetry.connections_aborted(NacelleTransport::new(HTTP), 5);
    telemetry.connection_opened(NacelleTransport::new(HTTP));
    assert_eq!(telemetry.observer().0, 6);
}

fn name(update: &MetricUpdate) -> &'static str {
    match update {
        MetricUpdate::Counter { name, .. } => name,
        MetricUpdate::Gauge { name, .. } => name,
        MetricUpdate::Histogram { name, .. } => name,
    }
}

fn names(updates: &[MetricUpdate]) -> Vec<&'static str> {
    updates.iter().map(name).collect()
}

fn moves(updates: &[MetricUpdate], gauge: &str, own: &[(&str, &str)]) -> i64 {
    updates
        .iter()
        .map(|update| match update {
            MetricUpdate::Gauge {
                name,
                labels: found,
                up,
                amount,
            } if *name == gauge && labels(found) == own => {
                let amount = i64::try_from(*amount).expect("a small move");
                if *up {
                    amount
                } else {
                    -amount
                }
            }
            _ => 0,
        })
        .sum()
}

#[test]
fn gauges_return_to_where_they_were() {
    let context = NacelleMetricsContext::new(
        NacelleTransport::new(TCP),
        "edge".to_string(),
        "framed",
        "none",
    );
    let telemetry = NacelleTelemetry::default()
        .with_request_in_flight_metrics(true)
        .with_request_duration_metrics(true);
    assert!(telemetry.metrics_enabled());
    assert!(telemetry.request_metrics_enabled());

    let connection = context.connection_attributes();
    let mut updates = telemetry.connection_accepted(&context);
    assert_eq!(
        moves(&updates, "nacelle.connections.in_flight", &labels(&connection)),
        1
    );
    updates.extend(telemetry.connection_closed(&context, "eof"));
    assert_eq!(
        moves(&updates, "nacelle.connections.in_flight", &labels(&connection)),
        0
    );

    let request = context.request_attributes();
    let mut updates = telemetry.request_started_with_context(&context);
    assert_eq!(
        moves(&updates, "nacelle.requests.in_flight", &labels(&request)),
        1
    );
    let finished = telemetry.request_finished_with_context(
        &context,
        "error",
        5,
        7,
        Duration::from_millis(2),
    );
    assert_eq!(
        names(&finished),
        vec![
            "nacelle.requests.completed",
            "nacelle.request.duration_ms",
            "nacelle.request.bytes",
            "nacelle.response.bytes",
            "nacelle.requests.in_flight",
        ]
    );
    updates.extend(finished);
    assert_eq!(
        moves(&updates, "nacelle.requests.in_flight", &labels(&request)),
        0
    );
}

#[test]
fn tcp_gauges_return_to_where_they_were() {
    let context = tcp::NacelleTcpMetricsContext::new(
        NacelleTransport::new(TCP),
        "edge".to_string(),
        "framed",
        "none",
        Some(7),
    );
    let telemetry: tcp::NacelleTelemetry<NacelleInMemoryTelemetrySink> =
        tcp::NacelleTelemetry::new().with_tcp_opcode_labels(true);

    let connection = context.connection_attributes();
    let mut updates = telemetry.tcp_connection_accepted(&context);
    assert_eq!(
        moves(&updates, "nacelle.tcp.connections.active", &labels(&connection)),
        1
    );
    updates.extend(telemetry.tcp_connection_closed(&context, "eof"));
    assert_eq!(
        moves(&updates, "nacelle.tcp.connections.active", &labels(&connection)),
        0
    );

    let request = context.request_attributes(true);
    let mut updates = telemetry.tcp_request_started(&context);
    assert_eq!(
        moves(&updates, "nacelle.tcp.requests.in_flight", &labels(&request)),
        1
    );
    let finished =
        telemetry.tcp_request_completed(&context, "ok", 0, 7, Duration::from_millis(2));
    assert_eq!(
        names(&finished),
        vec![
            "nacelle.tcp.requests.completed",
            "nacelle.tcp.request.duration_ms",
            "nacelle.tcp.response.bytes",
            "nacelle.tcp.requests.in_flight",
        ]
    );
    updates.extend(finished);
    assert_eq!(
        moves(&updates, "nacelle.tcp.requests.in_flight", &labels(&request)),
        0
    );
}

#[test]
fn phases_and_errors_of_requests_are_measured() {
    let context = NacelleMetricsContext::new(
        NacelleTransport::new(TCP),
        "edge".to_string(),
        "framed",
        "none",
    );
    let telemetry = NacelleTelemetry::default();
    let elapsed = Duration::from_millis(4);
    assert!(telemetry.phase_duration(&context, "decode", elapsed).is_empty());
    let telemetry = telemetry.with_phase_duration_metrics(true);
    assert!(telemetry.phase_duration(&context, "dance", elapsed).is_empty());
    let timed = telemetry.phase_duration(&context, "decode", elapsed);
    assert_eq!(names(&timed), vec!["nacelle.phase.duration_ms"]);

    let failed = telemetry.operation_error(
        &context,
        "decode",
        &NacelleError::ResourceLimit("connections"),
    );
    assert_eq!(
        names(&failed),
        vec!["nacelle.errors", "nacelle.resource_limit.rejections"]
    );
    match &failed[1] {
        MetricUpdate::Counter { labels: own, .. } => {
            let own = labels(own);
            assert_eq!(
                own[own.len() - 2..],
                [("limit", "connections"), ("phase", "decode")]
            );
        }
        other => panic!("unexpected update {other:?}"),
    }
    assert_eq!(
        names(&telemetry.operation_error(&context, "decode", &NacelleError::UnexpectedEof)),
        vec!["nacelle.errors"]
    );
}

#[test]
fn phases_and_errors_of_tcp_requests_are_measured() {
    let context = tcp::NacelleTcpMetricsContext::new(
        NacelleTransport::new(TCP),
        "edge".to_string(),
        "framed",
        "none",
        None,
    );
    let telemetry: tcp::NacelleTelemetry<NacelleInMemoryTelemetrySink> =
        tcp::NacelleTelemetry::new();
    let elapsed = Duration::from_millis(4);
    assert_eq!(
        names(&telemetry.tcp_phase_duration(&context, "decode", elapsed)),
        vec!["nacelle.tcp.phase.duration_ms"]
    );
    assert!(telemetry.tcp_request_body_bytes(&context, 0).is_empty());
    assert!(matches!(
        telemetry.tcp_request_body_bytes(&context, 12)[..],
        [MetricUpdate::Counter {
            name: "nacelle.tcp.request.body_bytes",
            increment: 12,
            ..
        }]
    ));
    assert_eq!(
        names(&telemetry.tcp_error(&context, "decode", &NacelleError::ResourceLimit("memory"))),
        vec!["nacelle.tcp.errors", "nacelle.tcp.resource_limit.rejections"]
    );
    let silent = telemetry.with_tcp_metrics(false);
    assert!(silent
        .tcp_error(&context, "decode", &NacelleError::UnexpectedEof)
        .is_empty());
    assert!(silent.tcp_phase_duration(&context, "decode", elapsed).is_empty());
}

use bytes::Bytes;
use http::header::{HeaderMap, HeaderName, HeaderValue};
use nacelle::address::{IpAddr, SocketAddr};
use nacelle::body::BodyStep;
use nacelle::connection::{ConnectionIds, NacelleConnectionMeta};
use nacelle::edge::deadline::{WriteDeadline, WriteStep};
use nacelle::edge::forwarded::{effective_peer_ip, forwarded_peer_texts};
use nacelle::edge::message::dispatch;
use nacelle::edge::policy::HttpRequestHead;
use nacelle::edge::pump::{body_len_hint, BodyPump, FrameEvent, PumpStep, ResponseMeter};
use nacelle::edge::runtime::{
    connection_rejection_reason, peer_rate_rejection_reason, rustls_tls_meta, Acceptance, Admission,
    ConnectionEvent, DrainEvent, HandlerEvent, HandshakeEvent, Refusal,
};
use nacelle::edge::{
    HttpConnectionStateFactory, HttpRequest, HttpRequestContext, HttpResponse, HttpRuntime,
    LocalHttpSharedState, NacelleHttpLimits, NacelleHttpPolicy, NoHttpConnectionState,
};
use nacelle::error::NacelleError;
use nacelle::limits::{NacelleLimits, NacelleRuntimeState};
use nacelle::memory::NacelleMemoryBudget;
use nacelle::peer_rate::NacellePeerRateLimitResult;
use nacelle::pipeline::{handler_fn, ConnectionContext, ConnectionInfo};
use nacelle::telemetry::{
    NacelleInMemoryObserver, NacelleTelemetry, NacelleTelemetryEventKind, MetricUpdate,
};
use nacelle::time::Duration;

const LOCALHOST: IpAddr = IpAddr::V4(0x7f00_0001);
const NEIGHBOUR: IpAddr = IpAddr::V4(0x7f00_0002);
const PEER: SocketAddr = SocketAddr {
    ip: LOCALHOST,
    port: 40_000,
    flow_info: 0,
    scope_id: 0,
};

type Runtime = HttpRuntime<NacelleInMemoryObserver>;

fn runtime(policy: NacelleHttpPolicy) -> Runtime {
    HttpRuntime::default()
        .with_telemetry(NacelleTelemetry::new().with_observer(NacelleInMemoryObserver::new()))
        .with_http_policy(policy)
}

fn head(method: &str, target: &str) -> HttpRequestHead {
    HttpRequestHead {
        method: method.to_string(),
        path_and_query: Some(target.to_string()),
        path: target.to_string(),
    }
}

fn headers(fields: &[(&'static str, &str)]) -> HeaderMap {
    let mut headers = HeaderMap::new();
    for (name, value) in fields {
        headers.append(
            HeaderName::from_static(name),
            HeaderValue::from_str(value).expect("header value"),
        );
    }
    headers
}

fn ask(
    runtime: &mut Runtime,
    shared: &mut LocalHttpSharedState,
    state: &mut NacelleRuntimeState,
    head: &HttpRequestHead,
    headers: &HeaderMap,
    peer: Option<IpAddr>,
) -> Admission {
    runtime.admit_request(head, headers, peer, shared, state, Duration::from_secs(0))
}

fn refused(policy: NacelleHttpPolicy, head: &HttpRequestHead, headers: &HeaderMap) -> (Refusal, Runtime) {
    let mut shared = LocalHttpSharedState::for_policy(&policy);
    let mut runtime = runtime(policy);
    let mut state = NacelleRuntimeState::default();
    match ask(
        &mut runtime,
        &mut shared,
        &mut state,
        head,
        headers,
        Some(LOCALHOST),
    ) {
        Admission::Refused(refusal) => {
            assert_eq!(state.active_requests(), 0);
            (refusal, runtime)
        }
        Admission::Admitted(_) => panic!("the request should be refused"),
    }
}

fn reasons(runtime: &Runtime, kind: NacelleTelemetryEventKind) -> Vec<Option<&'static str>> {
    runtime
        .telemetry
        .observer()
        .events()
        .iter()
        .filter(|event| event.kind == kind)
        .map(|event| event.reason)
        .collect()
}

fn kinds(runtime: &Runtime) -> Vec<NacelleTelemetryEventKind> {
    runtime
        .telemetry
        .observer()
        .events()
        .iter()
        .map(|event| event.kind)
        .collect()
}

fn names(updates: &[MetricUpdate]) -> Vec<&'static str> {
    updates
        .iter()
        .map(|update| match update {
            MetricUpdate::Counter { name, .. }
            | MetricUpdate::Gauge { name, .. }
            | MetricUpdate::Histogram { name, .. } => *name,
        })
        .collect()
}

#[test]
fn local_http_workers_share_peer_rate_limit_state() {
    let policy = NacelleHttpPolicy::new().with_max_requests_per_peer_per_second(1);
    let mut shared_state = LocalHttpSharedState::default();
    shared_state.prepare(&policy);
    let first = runtime(policy);
    let second = runtime(NacelleHttpPolicy::new().with_max_requests_per_peer_per_second(1));
    shared_state.prepare(&second.http_policy);

    assert_eq!(
        shared_state.allow_peer_request(&first.http_policy, LOCALHOST),
        NacellePeerRateLimitResult::Allowed
    );
    assert_eq!(
        shared_state.allow_peer_request(&second.http_policy, LOCALHOST),
        NacellePeerRateLimitResult::RateLimited
    );
}

#[test]
fn http_peer_rate_table_rejects_new_peers_when_full() {
    let policy = NacelleHttpPolicy::new()
        .with_max_requests_per_peer_per_second(1)
        .with_peer_rate_limit_table_capacity(1);
    let mut shared = LocalHttpSharedState::for_policy(&policy);

    assert_eq!(
        shared.allow_peer_request(&policy, LOCALHOST),
        NacellePeerRateLimitResult::Allowed
    );
    assert_eq!(
        shared.allow_peer_request(&policy, NEIGHBOUR),
        NacellePeerRateLimitResult::TableFull
    );
    assert_eq!(
        peer_rate_rejection_reason(NacellePeerRateLimitResult::TableFull),
        "peer_rate_table_full"
    );
}

#[test]
fn peers_without_a_limiter_are_turned_away() {
    let policy = NacelleHttpPolicy::new().with_max_requests_per_peer_per_second(1);
    let mut shared = LocalHttpSharedState::default();
    assert_eq!(
        shared.allow_peer_request(&policy, LOCALHOST),
        NacellePeerRateLimitResult::TableFull
    );
    assert_eq!(
        shared.allow_peer_request(&NacelleHttpPolicy::new(), LOCALHOST),
        NacellePeerRateLimitResult::Allowed
    );
}

#[test]
fn http_policy_rejects_disallowed_host_before_handler() {
    let (refusal, runtime) = refused(
        NacelleHttpPolicy::new().with_allowed_hosts(vec!["example.com".to_string()]),
        &head("GET", "/"),
        &headers(&[("host", "wrong.example"), ("connection", "close")]),
    );

    assert_eq!(refusal.status, 421);
    assert_eq!(refusal.body, "host");
    assert_eq!(
        reasons(&runtime, NacelleTelemetryEventKind::RequestRejected),
        vec![Some("host")]
    );
    assert_eq!(names(&refusal.updates), vec!["nacelle.rejections"]);
}

#[test]
fn http_policy_rejects_disallowed_method_before_handler() {
    let (refusal, runtime) = refused(
        NacelleHttpPolicy::new().with_allowed_methods(vec!["GET".to_string()]),
        &head("POST", "/"),
        &headers(&[("host", "localhost"), ("connection", "close")]),
    );

    assert_eq!(refusal.status, 405);
    assert_eq!(
        reasons(&runtime, NacelleTelemetryEventKind::RequestRejected),
        vec![Some("method_not_allowed")]
    );
}

#[test]
fn http_policy_rejects_long_uri_before_handler() {
    let (refusal, runtime) = refused(
        NacelleHttpPolicy::new().with_max_uri_len(4),
        &head("GET", "/too-long"),
        &headers(&[("host", "localhost"), ("connection", "close")]),
    );

    assert_eq!(refusal.status, 414);
    assert_eq!(
        reasons(&runtime, NacelleTelemetryEventKind::RequestRejected),
        vec![Some("uri_too_long")]
    );
}

#[test]
fn http_policy_rejects_header_count_and_bytes_before_handler() {
    let fields = headers(&[
        ("host", "localhost"),
        ("x-long", "abcdefghijklmnop"),
        ("connection", "close"),
    ]);
    let (refusal, runtime) = refused(
        NacelleHttpPolicy::new()
            .with_max_header_count(1)
            .with_max_header_bytes(16),
        &head("GET", "/"),
        &fields,
    );
    assert_eq!(refusal.status, 431);
    assert_eq!(
        reasons(&runtime, NacelleTelemetryEventKind::RequestRejected),
        vec![Some("header_count")]
    );

    let (refusal, runtime) = refused(
        NacelleHttpPolicy::new().with_max_header_bytes(49),
        &head("GET", "/"),
        &fields,
    );
    assert_eq!(refusal.status, 431);
    assert_eq!(
        reasons(&runtime, NacelleTelemetryEventKind::RequestRejected),
        vec![Some("header_bytes")]
    );
    assert!(NacelleHttpPolicy::new()
        .with_max_header_bytes(50)
        .with_max_header_count(3)
        .validate_http_policy(&head("GET", "/"), &fields)
        .is_none());
}

#[test]
fn hosts_are_compared_without_case_port_and_trailing_dots() {
    let policy = NacelleHttpPolicy::new().with_allowed_hosts(vec!["Example.COM.".to_string()]);
    for host in ["example.com", "EXAMPLE.com", "example.com:8080", "example.com.."] {
        assert!(
            policy
                .validate_http_policy(&head("GET", "/"), &headers(&[("host", host)]))
                .is_none(),
            "{host} should be allowed"
        );
    }
    for host in ["example.org", "example.com.:80", "", "sub.example.com"] {
        assert_eq!(
            policy
                .validate_http_policy(&head("GET", "/"), &headers(&[("host", host)]))
                .map(|rejection| rejection.reason),
            Some("host"),
            "{host} should be rejected"
        );
    }
    assert_eq!(
        policy
            .validate_http_policy(&head("GET", "/"), &headers(&[]))
            .map(|rejection| rejection.status),
        Some(421)
    );
}

#[test]
fn a_target_without_path_and_query_is_measured_by_its_path() {
    let policy = NacelleHttpPolicy::new().with_max_uri_len(3);
    let connect = HttpRequestHead {
        method: "CONNECT".to_string(),
        path_and_query: None,
        path: "abcd".to_string(),
    };
    assert_eq!(
        policy
            .validate_http_policy(&connect, &headers(&[]))
            .map(|rejection| rejection.reason),
        Some("uri_too_long")
    );
}

#[test]
fn http_policy_adds_security_headers_to_normal_and_rejected_responses() {
    let runtime = runtime(NacelleHttpPolicy::new().with_default_security_headers());
    assert_eq!(runtime.http_policy.security_header_count(), 4);

    let mut own = HeaderMap::new();
    own.insert(
        HeaderName::from_static("x-frame-options"),
        HeaderValue::from_static("sameorigin"),
    );
    let normal = runtime.response_to_http(HttpResponse::new(
        200,
        own,
        nacelle::body::NacelleBody::bytes(Bytes::from_static(b"handler")),
    ));
    assert_eq!(normal.status, 200);
    assert_eq!(normal.headers["x-content-type-options"], "nosniff");
    assert_eq!(normal.headers["x-frame-options"], "sameorigin");
    assert_eq!(normal.headers["referrer-policy"], "no-referrer");
    assert_eq!(normal.headers["cross-origin-resource-policy"], "same-origin");
    assert_eq!(normal.body.remaining_bytes(), 7);

    let rejected = runtime.text_response(421, "host".to_string());
    assert_eq!(rejected.status, 421);
    assert_eq!(rejected.headers["x-content-type-options"], "nosniff");
    assert_eq!(rejected.headers["x-frame-options"], "deny");
    assert_eq!(rejected.headers.len(), 4);
    let mut body = rejected.body;
    assert!(matches!(body.next_chunk(), BodyStep::Chunk(chunk) if chunk == Bytes::from_static(b"host")));
}

#[test]
fn responses_with_too_many_headers_are_handed_back() {
    let runtime = runtime(NacelleHttpPolicy::new().with_strict_transport_security(b"max-age=1"));
    let sent = runtime
        .try_response_to_http(HttpResponse::empty(204))
        .expect("room for one header");
    assert_eq!(sent.headers["strict-transport-security"], "max-age=1");

    let mut crowded = HeaderMap::new();
    for _ in 0..6553 {
        crowded.append(
            HeaderName::from_static("x-many"),
            HeaderValue::from_static("1"),
        );
    }
    let back = runtime
        .try_response_to_http(HttpResponse::new(
            200,
            crowded,
            nacelle::body::NacelleBody::empty(),
        ))
        .expect_err("no room");
    assert_eq!(back.headers.len(), 6553);
}

#[test]
fn http_policy_rate_limits_requests_per_peer() {
    let policy = NacelleHttpPolicy::new().with_max_requests_per_peer_per_second(1);
    let mut shared = LocalHttpSharedState::for_policy(&policy);
    let mut runtime = runtime(policy).with_access_log(true);
    let mut state = NacelleRuntimeState::default();
    let fields = headers(&[("host", "localhost")]);

    let first = runtime.admit_request_at(
        &head("GET", "/"),
        &fields,
        Some(LOCALHOST),
        &mut shared,
        &mut state,
        Duration::from_secs(1),
        5,
        77,
    );
    let second = runtime.admit_request_at(
        &head("GET", "/"),
        &fields,
        Some(LOCALHOST),
        &mut shared,
        &mut state,
        Duration::from_secs(1),
        5,
        77,
    );
    assert!(matches!(first, Admission::Admitted(_)));
    match second {
        Admission::Refused(refusal) => {
            assert_eq!(refusal.status, 429);
            assert_eq!(refusal.body, "peer_rate");
            let log = refusal.access_log.expect("access log");
            assert_eq!(log.status, 429);
            assert_eq!(log.peer_ip, Some(LOCALHOST));
            assert_eq!(log.reason, Some("peer_rate"));
            assert_eq!(log.request_bytes, 0);
            assert_eq!(log.elapsed, Duration::from_secs(1));
        }
        Admission::Admitted(_) => panic!("the second request should be refused"),
    }
    assert_eq!(
        reasons(&runtime, NacelleTelemetryEventKind::RequestRejected),
        vec![Some("peer_rate")]
    );
    assert!(matches!(
        runtime.admit_request_at(
            &head("GET", "/"),
            &fields,
            Some(LOCALHOST),
            &mut shared,
            &mut state,
            Duration::from_secs(1),
            6,
            77,
        ),
        Admission::Admitted(_)
    ));
    assert_eq!(state.active_requests(), 2);
}

#[test]
fn requests_without_a_peer_are_not_rated() {
    let policy = NacelleHttpPolicy::new().with_max_requests_per_peer_per_second(1);
    let mut shared = LocalHttpSharedState::for_policy(&policy);
    let mut runtime = runtime(policy);
    let mut state = NacelleRuntimeState::default();
    for _ in 0..3 {
        assert!(matches!(
            ask(
                &mut runtime,
                &mut shared,
                &mut state,
                &head("GET", "/"),
                &headers(&[]),
                None
            ),
            Admission::Admitted(_)
        ));
    }
}

#[test]
fn requests_beyond_the_limit_are_answered_with_service_unavailable() {
    let mut runtime = runtime(NacelleHttpPolicy::new());
    let mut shared = LocalHttpSharedState::default();
    let mut state =
        NacelleRuntimeState::new(NacelleLimits::default().with_max_in_flight_requests(1));
    let permit = match ask(
        &mut runtime,
        &mut shared,
        &mut state,
        &head("GET", "/"),
        &headers(&[]),
        Some(LOCALHOST),
    ) {
        Admission::Admitted(permit) => permit,
        Admission::Refused(refusal) => panic!("refused {refusal:?}"),
    };
    match ask(
        &mut runtime,
        &mut shared,
        &mut state,
        &head("GET", "/"),
        &headers(&[]),
        Some(LOCALHOST),
    ) {
        Admission::Refused(refusal) => {
            assert_eq!(refusal.status, 503);
            assert!(refusal
                .body
                .starts_with("resource limit exceeded: in_flight_requests; hint: "));
            assert!(refusal.access_log.is_none());
            assert_eq!(names(&refusal.updates), vec!["nacelle.requests.failed"]);
        }
        Admission::Admitted(_) => panic!("the second request should be refused"),
    }
    assert_eq!(
        reasons(&runtime, NacelleTelemetryEventKind::RequestFailed),
        vec![Some("in_flight_requests")]
    );
    state.release(permit);
    assert!(matches!(
        ask(
            &mut runtime,
            &mut shared,
            &mut state,
            &head("GET", "/"),
            &headers(&[]),
            Some(LOCALHOST)
        ),
        Admission::Admitted(_)
    ));
}

#[test]
fn http_handler_error_becomes_500_response() {
    let mut runtime = runtime(NacelleHttpPolicy::new()).with_access_log(true);
    let finished = runtime
        .finish_request(
            HandlerEvent::Failed(NacelleError::handler("boom".to_string())),
            Some(LOCALHOST),
            12,
            Duration::from_millis(3),
        )
        .expect("an answer");
    let failure = finished.failure.expect("failure answer");
    assert_eq!(failure.status, 500);
    assert_eq!(failure.body, "handler error: boom");
    let log = finished.access_log.expect("access log");
    assert_eq!((log.status, log.reason), (500, Some("handler")));
    assert_eq!(
        kinds(&runtime),
        vec![
            NacelleTelemetryEventKind::RequestFailed,
            NacelleTelemetryEventKind::RequestCompleted,
        ]
    );
    assert_eq!(
        names(&finished.updates),
        vec![
            "nacelle.requests.failed",
            "nacelle.requests.completed",
            "nacelle.request.bytes",
        ]
    );
}

#[test]
fn completed_and_late_handlers_are_told_apart() {
    let mut runtime = runtime(NacelleHttpPolicy::new());
    let finished = runtime
        .finish_request(
            HandlerEvent::Completed(204),
            None,
            0,
            Duration::from_millis(3),
        )
        .expect("finished");
    assert!(finished.failure.is_none());
    assert!(finished.access_log.is_none());
    assert_eq!(names(&finished.updates), vec!["nacelle.requests.completed"]);
    assert_eq!(
        kinds(&runtime),
        vec![NacelleTelemetryEventKind::RequestCompleted]
    );
    assert!(matches!(
        runtime.finish_request(HandlerEvent::TimedOut, None, 0, Duration::from_secs(30)),
        Err(NacelleError::Timeout("handler"))
    ));
    assert_eq!(kinds(&runtime).len(), 1);
}

#[test]
fn http_policy_ignores_forwarded_peer_by_default() {
    let fields = headers(&[("host", "localhost"), ("x-forwarded-for", "203.0.113.1")]);
    let texts = forwarded_peer_texts(&fields);
    assert_eq!(texts, vec![b"203.0.113.1".to_vec()]);
    assert_eq!(
        effective_peer_ip(
            &NacelleHttpPolicy::new(),
            Some(LOCALHOST),
            &vec![Some(IpAddr::V4(0xcb00_7101))]
        ),
        Some(LOCALHOST)
    );
}

#[test]
fn http_policy_uses_forwarded_peer_only_from_trusted_proxy() {
    let policy = NacelleHttpPolicy::new().with_trusted_proxy_ips(vec![LOCALHOST]);
    let forwarded = IpAddr::V4(0xcb00_7101);
    assert_eq!(
        effective_peer_ip(&policy, Some(LOCALHOST), &vec![None, Some(forwarded)]),
        Some(forwarded)
    );
    assert_eq!(
        effective_peer_ip(&policy, Some(NEIGHBOUR), &vec![Some(forwarded)]),
        Some(NEIGHBOUR)
    );
    assert_eq!(
        effective_peer_ip(&policy, Some(LOCALHOST), &vec![None]),
        Some(LOCALHOST)
    );
    assert_eq!(
        effective_peer_ip(&policy, None, &vec![Some(forwarded)]),
        None
    );
}

fn texts_of(fields: &[(&'static str, &str)]) -> Vec<String> {
    forwarded_peer_texts(&headers(fields))
        .into_iter()
        .map(|text| String::from_utf8(text).expect("ASCII"))
        .collect()
}

#[test]
fn forwarded_addresses_are_found() {
    assert_eq!(texts_of(&[("forwarded", "for=203.0.113.1")]), ["203.0.113.1"]);
    assert_eq!(
        texts_of(&[("forwarded", "proto=http; FOR = \"203.0.113.1:80\" , for=1.1.1.1")]),
        ["203.0.113.1:80", "203.0.113.1"]
    );
    assert_eq!(
        texts_of(&[("forwarded", "for=\"[2001:db8::1]:443\"")]),
        ["[2001:db8::1]:443", "2001:db8::1"]
    );
    assert_eq!(texts_of(&[("forwarded", "novalue; for=1.1.1.1")]), [""; 0]);
    assert_eq!(texts_of(&[("forwarded", "by=1.1.1.1")]), [""; 0]);
    assert_eq!(
        texts_of(&[
            ("forwarded", "for=unknown"),
            ("x-forwarded-for", " 203.0.113.9 , 10.0.0.1")
        ]),
        ["unknown", "203.0.113.9"]
    );
    assert_eq!(texts_of(&[]), [""; 0]);
}

#[test]
fn http_per_peer_connection_limit_rejects_second_connection() {
    let mut runtime = runtime(NacelleHttpPolicy::new()).with_listener_label("edge");
    let mut state =
        NacelleRuntimeState::new(NacelleLimits::default().with_max_connections_per_peer(1));
    let mut ids = ConnectionIds::default();

    let permit = match runtime.accept_connection(&mut state, &mut ids, PEER, None) {
        Acceptance::Opened {
            permit,
            connection,
            updates,
        } => {
            assert_eq!(connection.connection_id, 1);
            assert_eq!(connection.listener, "edge");
            assert_eq!(connection.peer_ip, Some(LOCALHOST));
            assert_eq!(connection.transport.as_str(), "http");
            assert_eq!(names(&updates), vec!["nacelle.connections.opened"]);
            permit
        }
        Acceptance::Refused { .. } => panic!("the first connection should open"),
    };
    match runtime.accept_connection(&mut state, &mut ids, PEER, None) {
        Acceptance::Refused { reason, updates } => {
            assert_eq!(reason, "peer_connections");
            assert_eq!(names(&updates), vec!["nacelle.rejections"])
        }
        Acceptance::Opened { .. } => panic!("the second connection should be refused"),
    }
    assert_eq!(state.active_connections(), 1);
    assert_eq!(
        reasons(&runtime, NacelleTelemetryEventKind::ConnectionRejected),
        vec![Some("peer_connections")]
    );
    state.release(permit);
    assert_eq!(state.active_connections(), 0);
    assert_eq!(
        connection_rejection_reason(&NacelleError::UnexpectedEof),
        "connections"
    );
}

#[test]
fn handshakes_and_connections_report_their_ends() {
    let mut runtime = runtime(NacelleHttpPolicy::new());
    assert!(runtime.on_handshake(HandshakeEvent::Completed).0.is_ok());
    assert!(matches!(
        runtime.on_handshake(HandshakeEvent::Failed("bad".to_string())).0,
        Err(NacelleError::Protocol(error)) if error == "bad"
    ));
    assert!(runtime.on_connection_end(ConnectionEvent::Finished).0.is_ok());
    assert!(matches!(
        runtime.on_connection_end(ConnectionEvent::Failed("cut".to_string())).0,
        Err(NacelleError::Protocol(error)) if error == "cut"
    ));
    assert!(kinds(&runtime).is_empty());

    let (result, updates) = runtime.on_handshake(HandshakeEvent::TimedOut);
    assert!(matches!(result, Err(NacelleError::Timeout("tls_handshake"))));
    assert_eq!(names(&updates), vec!["nacelle.timeouts"]);
    let (result, _) = runtime.on_connection_end(ConnectionEvent::TooOld);
    assert!(matches!(
        result,
        Err(NacelleError::Timeout("http_max_connection_age"))
    ));
    assert_eq!(
        reasons(&runtime, NacelleTelemetryEventKind::Timeout),
        vec![Some("tls_handshake"), Some("http_max_connection_age")]
    );
}

#[test]
fn drains_end_well_or_abort_what_is_left() {
    let mut runtime = runtime(NacelleHttpPolicy::new());
    assert_eq!(
        names(&runtime.begin_drain()),
        vec!["nacelle.shutdown_events", "nacelle.shutdown_events"]
    );
    let (abort, _) = runtime.end_drain(DrainEvent::Completed);
    assert!(!abort);
    let (abort, updates) = runtime.end_drain(DrainEvent::TimedOut(3));
    assert!(abort);
    assert!(matches!(
        &updates[1],
        MetricUpdate::Counter {
            name: "nacelle.connection_aborts",
            increment: 3,
            ..
        }
    ));
    assert_eq!(
        kinds(&runtime),
        vec![
            NacelleTelemetryEventKind::ListenerStoppedAccepting,
            NacelleTelemetryEventKind::DrainStarted,
            NacelleTelemetryEventKind::DrainCompleted,
            NacelleTelemetryEventKind::DrainTimedOut,
            NacelleTelemetryEventKind::ConnectionsAborted,
        ]
    );
    assert_eq!(runtime.telemetry.observer().events()[4].count, 3);
}

#[test]
fn timing_is_of_interest_to_logs_and_durations() {
    let plain = HttpRuntime::default();
    assert!(!plain.request_timing_enabled());
    assert_eq!(plain.listener, "direct");
    assert!(plain.with_access_log(true).request_timing_enabled());
    let timed = HttpRuntime::new(NacelleTelemetry::new().with_request_duration_metrics(true))
        .with_http_limits(NacelleHttpLimits::default());
    assert!(timed.request_timing_enabled());
}

#[test]
fn negotiated_tls_is_described() {
    let meta = rustls_tls_meta(
        Some("TLSv1_3".to_string()),
        Some("TLS13_AES_256_GCM_SHA384".to_string()),
        None,
    );
    assert_eq!(meta.provider, "rustls");
    assert_eq!(meta.protocol.as_deref(), Some("TLSv1_3"));
    assert_eq!(meta.cipher_suite.as_deref(), Some("TLS13_AES_256_GCM_SHA384"));
    assert_eq!(meta.server_name, None);
    assert_eq!(meta.cipher_bits, None);
}

#[test]
fn announced_bodies_reserve_memory_before_they_are_read() {
    let mut budget = NacelleMemoryBudget::new(64);
    let mut telemetry = NacelleTelemetry::new();
    let mut pump = BodyPump::new(body_len_hint(Some(5)), 8);
    assert!(matches!(pump.start(), PumpStep::Allocate(5)));
    let memory = budget.try_allocate(5);
    assert!(matches!(pump.on_memory(memory), PumpStep::SendMemory(held) if held.bytes() == 5));
    assert!(matches!(
        pump.on_memory_sent(true),
        PumpStep::AcquireStreamingTask
    ));
    assert!(matches!(pump.on_streaming_task(Ok(())), PumpStep::ReadFrame));
    let (step, updates) = pump.on_frame(
        FrameEvent::Data(Bytes::from_static(b"hello")),
        &mut telemetry,
    );
    assert!(matches!(step, PumpStep::Forward(data) if data == Bytes::from_static(b"hello")));
    assert!(updates.is_empty());
    assert!(matches!(pump.on_forwarded(true), PumpStep::ReadFrame));
    assert!(matches!(
        pump.on_frame(FrameEvent::Other, &mut telemetry).0,
        PumpStep::ReadFrame
    ));
    assert!(matches!(
        pump.on_frame(FrameEvent::Data(Bytes::from_static(b"more")), &mut telemetry)
            .0,
        PumpStep::Fail(NacelleError::ResourceLimit("request_body_bytes"))
    ));
    assert_eq!(pump.body_bytes(), 5);
    assert!(matches!(
        pump.on_frame(FrameEvent::End, &mut telemetry).0,
        PumpStep::Stop
    ));
}

#[test]
fn pumps_stop_where_their_steps_fail() {
    let mut telemetry = NacelleTelemetry::new().with_observer(NacelleInMemoryObserver::new());
    let mut pump = BodyPump::new(None, 8);
    assert!(matches!(pump.start(), PumpStep::AcquireStreamingTask));
    assert!(matches!(
        BodyPump::new(Some(9), 8).start(),
        PumpStep::Fail(NacelleError::ResourceLimit("request_body_bytes"))
    ));
    assert!(matches!(
        pump.on_memory(Err(NacelleError::Timeout("memory_allocation"))),
        PumpStep::Fail(NacelleError::Timeout("memory_allocation"))
    ));
    assert!(matches!(pump.on_memory_sent(false), PumpStep::Stop));
    assert!(matches!(pump.on_forwarded(false), PumpStep::Stop));
    assert!(matches!(
        pump.on_streaming_task(Err(NacelleError::ResourceLimit("streaming_tasks"))),
        PumpStep::Fail(NacelleError::ResourceLimit("streaming_tasks"))
    ));
    assert!(matches!(
        pump.on_frame(FrameEvent::Failed("reset".to_string()), &mut telemetry).0,
        PumpStep::Fail(NacelleError::Protocol(error)) if error == "reset"
    ));
    let (step, updates) = pump.on_frame(FrameEvent::TimedOut, &mut telemetry);
    assert!(matches!(
        step,
        PumpStep::Fail(NacelleError::Timeout("http_body_read"))
    ));
    assert_eq!(names(&updates), vec!["nacelle.timeouts"]);
    assert_eq!(telemetry.observer().events().len(), 1);
    assert_eq!(body_len_hint(None), None);
}

#[test]
fn http_response_body_bytes_are_recorded() {
    let mut telemetry = NacelleTelemetry::new().with_observer(NacelleInMemoryObserver::new());
    let mut meter = ResponseMeter::new(6);
    assert!(meter.on_chunk(Bytes::from_static(b"abc")).is_ok());
    assert!(matches!(
        meter.on_chunk(Bytes::from_static(b"defg")),
        Err(NacelleError::ResourceLimit("response_body_bytes"))
    ));
    assert!(meter.on_chunk(Bytes::from_static(b"de")).is_ok());
    let updates = meter.finish(&mut telemetry);
    assert_eq!(names(&updates), vec!["nacelle.response.bytes"]);
    let event = &telemetry.observer().events()[0];
    assert_eq!(event.kind, NacelleTelemetryEventKind::ResponseBodyBytes);
    assert_eq!(event.count, 5);

    assert!(ResponseMeter::new(6).finish(&mut telemetry).is_empty());
    assert_eq!(telemetry.observer().events().len(), 1);
}

#[test]
fn writes_time_out_only_while_they_are_stuck() {
    let mut never = WriteDeadline::new(None);
    assert!(matches!(never.begin_write(), WriteStep::Write));
    assert!(matches!(never.on_pending(), WriteStep::Wait));

    let mut deadline = WriteDeadline::new(Some(Duration::from_secs(30)));
    assert!(matches!(deadline.begin_write(), WriteStep::Write));
    assert!(matches!(
        deadline.on_pending(),
        WriteStep::StartDeadline(timeout) if timeout == Duration::from_secs(30)
    ));
    assert!(matches!(
        deadline.on_pending_deadline(false),
        WriteStep::Wait
    ));
    assert!(matches!(deadline.begin_write(), WriteStep::AskDeadline));
    assert!(matches!(deadline.on_deadline(false), WriteStep::Write));
    deadline.on_progress();
    assert!(matches!(deadline.begin_write(), WriteStep::Write));
    assert!(matches!(
        deadline.on_pending(),
        WriteStep::StartDeadline(_)
    ));
    assert!(matches!(deadline.on_pending(), WriteStep::AskDeadline));
    assert!(matches!(deadline.on_deadline(true), WriteStep::TimedOut));
    assert!(matches!(deadline.begin_write(), WriteStep::Write));
    assert!(matches!(
        deadline.on_pending_deadline(true),
        WriteStep::TimedOut
    ));
}

#[test]
fn handlers_are_called_with_their_connection() {
    let mut ids = ConnectionIds::default();
    let meta = NacelleConnectionMeta::http(&mut ids, Some(LOCALHOST)).with_listener("edge");
    let info = ConnectionInfo::from(&meta);
    let connection = ConnectionContext::new(info, 41_u32);
    let handler = handler_fn(|mut context: HttpRequestContext<u32>| {
        assert_eq!(context.request().method, "GET");
        assert_eq!(context.request().uri, "/x");
        assert_eq!(context.request().remaining_body_bytes(), 2);
        assert!(matches!(
            context.request_mut().next_body_chunk(),
            BodyStep::Chunk(chunk) if chunk == Bytes::from_static(b"hi")
        ));
        let status = 200 + (context.connection().state - 41) as u16;
        context.respond(HttpResponse::bytes(status, Bytes::from_static(b"ok")))
    });
    let request = HttpRequest::new(
        "GET".to_string(),
        "/x".to_string(),
        HeaderMap::new(),
        Some(LOCALHOST),
        nacelle::body::NacelleBody::bytes(Bytes::from_static(b"hi")),
    );
    let completion = dispatch(&handler, request, connection).expect("response");
    let response = completion.into_inner().into_response();
    assert_eq!(response.status, 200);
    assert_eq!(response.body.remaining_bytes(), 2);
    HttpConnectionStateFactory::create(&NoHttpConnectionState, &ConnectionInfo::from(&meta));
}

#[test]
fn requests_without_a_limiter_are_rated_with_zeros() {
    let policy = NacelleHttpPolicy::new().with_max_requests_per_peer_per_second(1);
    assert_eq!(
        LocalHttpSharedState::default().rating_inputs(Some(LOCALHOST)),
        (0, 0)
    );
    let shared = LocalHttpSharedState::for_policy(&policy);
    assert_eq!(shared.rating_inputs(None), (0, 0));
    assert_eq!(
        shared.rating_inputs(Some(LOCALHOST)).1,
        shared.rating_inputs(Some(LOCALHOST)).1
    );
}

#[test]
fn policies_show_the_headers_that_they_add() {
    let policy = NacelleHttpPolicy::new()
        .with_security_header("x-one", b"1")
        .with_security_header("x-two", b"2");
    let shown: Vec<(&str, &[u8])> = policy
        .security_headers()
        .iter()
        .map(|header| (header.name(), header.value()))
        .collect();
    assert_eq!(shown, vec![("x-one", b"1".as_slice()), ("x-two", b"2".as_slice())]);
    assert_eq!(policy.security_header_count(), 2);
}

use nacelle::error::NacelleError;

#[test]
fn owned_errors_include_actionable_hints() {
    let error = NacelleError::ResourceLimit("request_body_bytes");

    assert_eq!(
        error.hint(),
        Some("raise NacelleLimits::max_request_body_bytes or lower client payload sizes")
    );
    assert!(error.to_string().contains("hint: raise NacelleLimits"));
}

#[test]
fn wrapped_errors_do_not_invent_hints() {
    let error = NacelleError::handler("boom".to_string());

    assert_eq!(error.hint(), None);
    assert_eq!(error.to_string(), "handler error: boom");
}

#[test]
fn every_error_has_its_text() {
    let texts = [
        (
            NacelleError::MissingProtocol,
            "protocol is required; hint: call TcpServer::<YourProtocol>::builder().protocol(...) before build",
        ),
        (
            NacelleError::InvalidFrame("magic"),
            "invalid frame: magic; hint: verify the protocol decoder and the peer's frame format",
        ),
        (
            NacelleError::FrameTooLarge { len: 70_000, max: 65_536 },
            "frame length 70000 exceeds configured maximum 65536; hint: raise NacelleTcpConfig::max_frame_len or reject larger client frames",
        ),
        (
            NacelleError::UnexpectedEof,
            "connection closed before the frame completed; hint: check client disconnects, frame lengths, and socket timeouts",
        ),
        (
            NacelleError::ConnectionClosed,
            "connection closed; hint: the peer closed the connection before the operation completed",
        ),
        (
            NacelleError::ResourceLimit("connections"),
            "resource limit exceeded: connections; hint: raise NacelleLimits::max_connections or reduce concurrent clients",
        ),
        (
            NacelleError::Timeout("handler"),
            "operation timed out: handler; hint: raise NacelleLimits::handler_timeout or make the handler complete sooner",
        ),
        (NacelleError::Io("reset".to_string()), "i/o error: reset"),
        (
            NacelleError::protocol("bad".to_string()),
            "protocol error: bad",
        ),
        (NacelleError::Join("gone".to_string()), "task join error: gone"),
    ];
    for (error, text) in texts {
        assert_eq!(error.to_string(), text);
    }
}

#[test]
fn limits_and_timeouts_have_hints_of_their_own() {
    let resources = [
        ("peer_connection_rate", "raise NacelleLimits::max_connection_opens_per_peer_per_second or slow reconnect churn"),
        ("peer_connection_rate_table_full", "raise NacelleLimits::connection_rate_limit_table_capacity or reduce active peer cardinality"),
        ("connections_per_peer", "raise NacelleLimits::max_connections_per_peer or distribute clients across peers"),
        ("requests", "raise NacelleLimits::max_in_flight_requests or reduce request concurrency"),
        ("streaming_tasks", "raise NacelleLimits::max_streaming_tasks or use buffered request bodies"),
        ("memory", "raise NacelleLimits::max_memory_bytes or lower buffer/body sizes"),
        ("response_body_bytes", "raise NacelleLimits::max_response_body_bytes or stream smaller responses"),
        ("anything", "adjust the matching NacelleLimits or transport limits value"),
    ];
    for (name, hint) in resources {
        assert_eq!(NacelleError::ResourceLimit(name).hint(), Some(hint));
    }
    let timeouts = [
        ("tcp_read", "raise NacelleTcpLimits::read_timeout or fix slow request readers"),
        ("request_body_read", "raise NacelleTcpLimits::read_timeout or fix slow request readers"),
        ("tcp_write", "raise NacelleTcpLimits::write_timeout or fix slow response readers"),
        ("tcp_final_write", "raise NacelleTcpLimits::write_timeout or fix slow response readers"),
        ("idle", "raise NacelleTcpLimits::idle_timeout or close idle clients sooner"),
        ("http_headers", "raise NacelleHttpLimits::header_read_timeout or reject slow header clients"),
        ("http_body_read", "raise NacelleHttpLimits::body_read_timeout or reject slow request bodies"),
        ("http_body_write", "raise NacelleHttpLimits::body_write_timeout or fix slow response readers"),
        ("anything", "adjust the matching Nacelle timeout limit"),
    ];
    for (name, hint) in timeouts {
        assert_eq!(NacelleError::Timeout(name).hint(), Some(hint));
    }
}

//! Failures of the runtime and the advice that goes with them.
use vstd::prelude::*;

use crate::text::{decimal, decimal_text, join_text, same_text};

verus! {

/// A failure of a connection, a request or one of its resources.
///
/// Failures that wrap another error carry that error's rendered text.
#[derive(Debug)]
pub enum NacelleError {
    MissingProtocol,
    InvalidFrame(&'static str),
    FrameTooLarge { len: usize, max: usize },
    UnexpectedEof,
    ConnectionClosed,
    ResourceLimit(&'static str),
    Timeout(&'static str),
    Io(String),
    Protocol(String),
    Handler(String),
    Join(String),
}

/// The advice for an exhausted resource.
pub open spec fn resource_hint(name: Seq<char>) -> &'static str {
    if name == "connections"@ {
        "raise NacelleLimits::max_connections or reduce concurrent clients"
    } else if name == "peer_connection_rate"@ {
        "raise NacelleLimits::max_connection_opens_per_peer_per_second or slow reconnect churn"
    } else if name == "peer_connection_rate_table_full"@ {
        "raise NacelleLimits::connection_rate_limit_table_capacity or reduce active peer cardinality"
    } else if name == "connections_per_peer"@ {
        "raise NacelleLimits::max_connections_per_peer or distribute clients across peers"
    } else if name == "requests"@ {
        "raise NacelleLimits::max_in_flight_requests or reduce request concurrency"
    } else if name == "streaming_tasks"@ {
        "raise NacelleLimits::max_streaming_tasks or use buffered request bodies"
    } else if name == "memory"@ {
        "raise NacelleLimits::max_memory_bytes or lower buffer/body sizes"
    } else if name == "request_body_bytes"@ {
        "raise NacelleLimits::max_request_body_bytes or lower client payload sizes"
    } else if name == "response_body_bytes"@ {
        "raise NacelleLimits::max_response_body_bytes or stream smaller responses"
    } else {
        "adjust the matching NacelleLimits or transport limits value"
    }
}

/// The advice for an operation that took too long.
pub open spec fn timeout_hint(name: Seq<char>) -> &'static str {
    if name == "tcp_read"@ || name == "request_body_read"@ {
        "raise NacelleTcpLimits::read_timeout or fix slow request readers"
    } else if name == "tcp_write"@ || name == "tcp_final_write"@ {
        "raise NacelleTcpLimits::write_timeout or fix slow response readers"
    } else if name == "idle"@ {
        "raise NacelleTcpLimits::idle_timeout or close idle clients sooner"
    } else if name == "handler"@ {
        "raise NacelleLimits::handler_timeout or make the handler complete sooner"
    } else if name == "http_headers"@ {
        "raise NacelleHttpLimits::header_read_timeout or reject slow header clients"
    } else if name == "http_body_read"@ {
        "raise NacelleHttpLimits::body_read_timeout or reject slow request bodies"
    } else if name == "http_body_write"@ {
        "raise NacelleHttpLimits::body_write_timeout or fix slow response readers"
    } else {
        "adjust the matching Nacelle timeout limit"
    }
}

impl NacelleError {
    /// The advice for this failure; wrapped errors carry none.
    pub open spec fn advice(&self) -> Option<&'static str> {
        match self {
            Self::MissingProtocol => Some(
                "call TcpServer::<YourProtocol>::builder().protocol(...) before build",
            ),
            Self::InvalidFrame(_) => Some("verify the protocol decoder and the peer's frame format"),
            Self::FrameTooLarge { .. } => Some(
                "raise NacelleTcpConfig::max_frame_len or reject larger client frames",
            ),
            Self::UnexpectedEof => Some(
                "check client disconnects, frame lengths, and socket timeouts",
            ),
            Self::ConnectionClosed => Some(
                "the peer closed the connection before the operation completed",
            ),
            Self::ResourceLimit(name) => Some(resource_hint(name@)),
            Self::Timeout(name) => Some(timeout_hint(name@)),
            Self::Io(_) | Self::Protocol(_) | Self::Handler(_) | Self::Join(_) => None,
        }
    }

    /// What went wrong, without the advice.
    pub open spec fn problem(&self) -> Seq<char> {
        match self {
            Self::MissingProtocol => "protocol is required"@,
            Self::InvalidFrame(message) => "invalid frame: "@ + message@,
            Self::FrameTooLarge { len, max } => "frame length "@ + decimal(*len as nat)
                + " exceeds configured maximum "@ + decimal(*max as nat),
            Self::UnexpectedEof => "connection closed before the frame completed"@,
            Self::ConnectionClosed => "connection closed"@,
            Self::ResourceLimit(name) => "resource limit exceeded: "@ + name@,
            Self::Timeout(name) => "operation timed out: "@ + name@,
            Self::Io(error) => "i/o error: "@ + error@,
            Self::Protocol(error) => "protocol error: "@ + error@,
            Self::Handler(error) => "handler error: "@ + error@,
            Self::Join(error) => "task join error: "@ + error@,
        }
    }

    /// Wraps a protocol implementation's error.
    pub fn protocol(error: String) -> (wrapped: Self)
        ensures
            wrapped == NacelleError::Protocol(error),
    {
        Self::Protocol(error)
    }

    /// Wraps a request handler's error.
    pub fn handler(error: String) -> (wrapped: Self)
        ensures
            wrapped == NacelleError::Handler(error),
    {
        Self::Handler(error)
    }

    /// Advice on how to avoid this failure.
    pub fn hint(&self) -> (hint: Option<&'static str>)
        ensures
            hint == self.advice(),
    {
        match self {
            Self::MissingProtocol => Some(
                "call TcpServer::<YourProtocol>::builder().protocol(...) before build",
            ),
            Self::InvalidFrame(_) => Some("verify the protocol decoder and the peer's frame format"),
            Self::FrameTooLarge { .. } => Some(
                "raise NacelleTcpConfig::max_frame_len or reject larger client frames",
            ),
            Self::UnexpectedEof => Some(
                "check client disconnects, frame lengths, and socket timeouts",
            ),
            Self::ConnectionClosed => Some(
                "the peer closed the connection before the operation completed",
            ),
            Self::ResourceLimit(name) => Some(resource_advice(name)),
            Self::Timeout(name) => Some(timeout_advice(name)),
            Self::Io(_) | Self::Protocol(_) | Self::Handler(_) | Self::Join(_) => None,
        }
    }

    /// Renders the failure, with its advice where there is any.
    pub fn to_string(&self) -> (text: String)
        ensures
            text@ == match self.advice() {
                Some(hint) => self.problem() + "; hint: "@ + hint@,
                None => self.problem(),
            },
    {
        let mut text = match self {
            Self::MissingProtocol => "protocol is required".to_owned(),
            Self::InvalidFrame(message) => join_text("invalid frame: ", message),
            Self::FrameTooLarge { len, max } => {
                let mut text = join_text("frame length ", decimal_text(*len as u64).as_str());
                text.append(" exceeds configured maximum ");
                text.append(decimal_text(*max as u64).as_str());
                text
            },
            Self::UnexpectedEof => "connection closed before the frame completed".to_owned(),
            Self::ConnectionClosed => "connection closed".to_owned(),
            Self::ResourceLimit(name) => join_text("resource limit exceeded: ", name),
            Self::Timeout(name) => join_text("operation timed out: ", name),
            Self::Io(error) => join_text("i/o error: ", error.as_str()),
            Self::Protocol(error) => join_text("protocol error: ", error.as_str()),
            Self::Handler(error) => join_text("handler error: ", error.as_str()),
            Self::Join(error) => join_text("task join error: ", error.as_str()),
        };
        if let Some(hint) = self.hint() {
            text.append("; hint: ");
            text.append(hint);
        }
        text
    }
}

fn resource_advice(name: &str) -> (hint: &'static str)
    ensures
        hint == resource_hint(name@),
{
    if same_text(name, "connections") {
        "raise NacelleLimits::max_connections or reduce concurrent clients"
    } else if same_text(name, "peer_connection_rate") {
        "raise NacelleLimits::max_connection_opens_per_peer_per_second or slow reconnect churn"
    } else if same_text(name, "peer_connection_rate_table_full") {
        "raise NacelleLimits::connection_rate_limit_table_capacity or reduce active peer cardinality"
    } else if same_text(name, "connections_per_peer") {
        "raise NacelleLimits::max_connections_per_peer or distribute clients across peers"
    } else if same_text(name, "requests") {
        "raise NacelleLimits::max_in_flight_requests or reduce request concurrency"
    } else if same_text(name, "streaming_tasks") {
        "raise NacelleLimits::max_streaming_tasks or use buffered request bodies"
    } else if same_text(name, "memory") {
        "raise NacelleLimits::max_memory_bytes or lower buffer/body sizes"
    } else if same_text(name, "request_body_bytes") {
        "raise NacelleLimits::max_request_body_bytes or lower client payload sizes"
    } else if same_text(name, "response_body_bytes") {
        "raise NacelleLimits::max_response_body_bytes or stream smaller responses"
    } else {
        "adjust the matching NacelleLimits or transport limits value"
    }
}

fn timeout_advice(name: &str) -> (hint: &'static str)
    ensures
        hint == timeout_hint(name@),
{
    if same_text(name, "tcp_read") || same_text(name, "request_body_read") {
        "raise NacelleTcpLimits::read_timeout or fix slow request readers"
    } else if same_text(name, "tcp_write") || same_text(name, "tcp_final_write") {
        "raise NacelleTcpLimits::write_timeout or fix slow response readers"
    } else if same_text(name, "idle") {
        "raise NacelleTcpLimits::idle_timeout or close idle clients sooner"
    } else if same_text(name, "handler") {
        "raise NacelleLimits::handler_timeout or make the handler complete sooner"
    } else if same_text(name, "http_headers") {
        "raise NacelleHttpLimits::header_read_timeout or reject slow header clients"
    } else if same_text(name, "http_body_read") {
        "raise NacelleHttpLimits::body_read_timeout or reject slow request bodies"
    } else if same_text(name, "http_body_write") {
        "raise NacelleHttpLimits::body_write_timeout or fix slow response readers"
    } else {
        "adjust the matching Nacelle timeout limit"
    }
}

/// The words of an error end with what came with it, in full, and a frame that is too
/// large is named with both lengths. Only errors that wrap another have no hint.
pub proof fn law_errors_name_what_came_with_them(error: NacelleError)
    ensures
        error matches NacelleError::InvalidFrame(text) ==> text@.is_suffix_of(error.problem()),
        error matches NacelleError::ResourceLimit(text) ==> text@.is_suffix_of(error.problem()),
        error matches NacelleError::Timeout(text) ==> text@.is_suffix_of(error.problem()),
        error matches NacelleError::Io(text) ==> text@.is_suffix_of(error.problem()),
        error matches NacelleError::Protocol(text) ==> text@.is_suffix_of(error.problem()),
        error matches NacelleError::Handler(text) ==> text@.is_suffix_of(error.problem()),
        error matches NacelleError::Join(text) ==> text@.is_suffix_of(error.problem()),
        error matches NacelleError::FrameTooLarge { len, max } ==> {
            &&& decimal(max as nat).is_suffix_of(error.problem())
            &&& ("frame length "@ + decimal(len as nat)).is_prefix_of(error.problem())
        },
        error.advice() is None <==> error is Io || error is Protocol || error is Handler
            || error is Join,
{
}

} // verus!

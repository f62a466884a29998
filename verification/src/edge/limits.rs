//! Time limits at the HTTP edge.
use vstd::prelude::*;

use crate::time::Duration;

verus! {

/// Time limits at the HTTP edge.
#[derive(Debug, Clone, Copy)]
pub struct NacelleHttpLimits {
    pub header_read_timeout: Option<Duration>,
    pub request_body_read_timeout: Option<Duration>,
    pub response_write_timeout: Option<Duration>,
    pub keep_alive: bool,
    pub max_connection_age: Option<Duration>,
}

/// Whether a limit is set to `span`.
pub open spec fn limited_to(limit: Option<Duration>, span: nat) -> bool {
    limit is Some && limit->0@ == span
}

impl Default for NacelleHttpLimits {
    fn default() -> (limits: Self)
        ensures
            limits.is_default(),
    {
        Self {
            header_read_timeout: Some(Duration::from_secs(30)),
            request_body_read_timeout: Some(Duration::from_secs(30)),
            response_write_timeout: Some(Duration::from_secs(30)),
            keep_alive: true,
            max_connection_age: None,
        }
    }
}

impl NacelleHttpLimits {
    /// Thirty seconds for every read and write, and connections of any age.
    pub open spec fn is_default(self) -> bool {
        &&& limited_to(self.header_read_timeout, 30_000_000_000)
        &&& limited_to(self.request_body_read_timeout, 30_000_000_000)
        &&& limited_to(self.response_write_timeout, 30_000_000_000)
        &&& self.keep_alive
        &&& self.max_connection_age is None
    }

    pub fn with_header_read_timeout(self, timeout: Duration) -> (limits: Self)
        ensures
            limits == (NacelleHttpLimits { header_read_timeout: Some(timeout), ..self }),
    {
        Self { header_read_timeout: Some(timeout), ..self }
    }

    pub fn with_request_body_read_timeout(self, timeout: Duration) -> (limits: Self)
        ensures
            limits == (NacelleHttpLimits { request_body_read_timeout: Some(timeout), ..self }),
    {
        Self { request_body_read_timeout: Some(timeout), ..self }
    }

    pub fn with_response_write_timeout(self, timeout: Duration) -> (limits: Self)
        ensures
            limits == (NacelleHttpLimits { response_write_timeout: Some(timeout), ..self }),
    {
        Self { response_write_timeout: Some(timeout), ..self }
    }

    pub fn with_keep_alive(self, keep_alive: bool) -> (limits: Self)
        ensures
            limits == (NacelleHttpLimits { keep_alive, ..self }),
    {
        Self { keep_alive, ..self }
    }

    pub fn with_max_connection_age(self, max_age: Duration) -> (limits: Self)
        ensures
            limits == (NacelleHttpLimits { max_connection_age: Some(max_age), ..self }),
    {
        Self { max_connection_age: Some(max_age), ..self }
    }
}

} // verus!

//! The decisions around connections and requests of an HTTP server.
//!
//! Sockets, timers and handlers are driven elsewhere: the runtime is told what
//! happened and says what follows, together with the changes to metrics.
use std::collections::hash_map::RandomState;
use std::time::Instant;

use http::HeaderMap;

use vstd::prelude::*;
use vstd::utf8::encode_utf8;

use super::headers::{first_value, header_count, header_fields, roomy_fields};
use super::laws::law_only_missing_headers_are_added;
use super::limits::NacelleHttpLimits;
use super::message::HttpResponse;
use super::policy::{with_missing, HttpRejection, HttpRequestHead, NacelleHttpPolicy, PolicyRules};
use crate::address::{IpAddr, SocketAddr};
use crate::body::{BodyChunks, BodyState};
use crate::buffer::text_chunk;
use crate::connection::{
    following_id, ConnectionIds, NacelleConnectionMeta, NacelleConnectionTlsMeta,
};
use crate::error::NacelleError;
use crate::limits::{
    opens_with, NacelleLimits, NacelleRuntimeState, PermitKind, RuntimeCounts, TrackedPermit,
};
use crate::peer_rate::laws::{
    admissions, after, law_attempt_counts_its_peer_alone, law_known_peers_are_admitted_below_their_limit,
    law_window_budget, PeerEvent,
};
use crate::peer_rate::{
    key_of, NacellePeerRateLimitResult, NacellePeerRateLimiter, PeerRateKey, PeerTable,
};
use crate::telemetry::event::{reason_of, stage_of, NacelleTelemetryEvent, NacelleTelemetryEventKind};
use crate::telemetry::metric::{changes, counted, no_updates, MetricChange, MetricUpdate};
use crate::telemetry::recorder::{completed_changes, event_of, failed_changes, transport_label};
use crate::telemetry::{NacelleTelemetry, NacelleTelemetryObserver, NoopObserver};
use crate::time::Duration;
use crate::transport::{law_transports_show_their_label, NacelleTransport};

verus! {

/// The transport of this module.
pub open spec fn http() -> NacelleTransport {
    NacelleTransport::named("http")
}

/// HTTP edge state shared by the listeners of a process.
///
/// Listeners that share it share the windows of request rates, so that several
/// workers keep the same policy as one.
#[derive(Debug)]
pub struct LocalHttpSharedState {
    peer_rate_limiter: Option<NacellePeerRateLimiter>,
}

impl View for LocalHttpSharedState {
    type V = Option<PeerTable>;

    closed spec fn view(&self) -> Option<PeerTable> {
        match self.peer_rate_limiter {
            Some(limiter) => Some(limiter@),
            None => None,
        }
    }
}

impl Default for LocalHttpSharedState {
    fn default() -> (shared: Self)
        ensures
            shared.wf(),
            shared@ is None,
    {
        Self { peer_rate_limiter: None }
    }
}

/// The answer to one more request of `peer`, and the table that follows.
pub open spec fn rated(
    rules: PolicyRules,
    table: Option<PeerTable>,
    peer: IpAddr,
    tick: u32,
    hash: u64,
) -> (Option<PeerTable>, NacellePeerRateLimitResult) {
    match rules.max_requests_per_peer_per_second {
        None => (table, NacellePeerRateLimitResult::Allowed),
        Some(limit) => match table {
            None => (table, NacellePeerRateLimitResult::TableFull),
            Some(table) => {
                let (next, answer) = table.attempt(
                    key_of(peer),
                    limit as nat,
                    tick as nat,
                    hash,
                );
                (Some(next), answer)
            },
        },
    }
}

impl LocalHttpSharedState {
    pub open spec fn wf(&self) -> bool {
        self@ matches Some(table) ==> table.wf()
    }

    /// Whether preparing for a policy leads from `before` to `after`.
    pub open spec fn prepares(before: Self, rules: PolicyRules, after: Self) -> bool {
        if before@ is None && rules.max_requests_per_peer_per_second is Some {
            after@ is Some && after@->0.is_unused(rules.peer_rate_limit_table_capacity)
        } else {
            after@ == before@ && after.origin() == before.origin()
        }
    }

    /// Makes the rate limiter that a policy asks for, unless there is one.
    pub fn prepare(&mut self, policy: &NacelleHttpPolicy)
        requires
            old(self).wf(),
        ensures
            final(self).wf(),
            Self::prepares(*old(self), policy@, *final(self)),
    {
        if self.peer_rate_limiter.is_none() && policy.max_requests_per_peer_per_second().is_some() {
            self.peer_rate_limiter = Some(
                NacellePeerRateLimiter::new(policy.peer_rate_limit_table_capacity()),
            );
        }
    }

    /// The state that a server keeps of its own for a policy: with a fresh rate
    /// limiter, where the policy asks for one.
    pub fn for_policy(policy: &NacelleHttpPolicy) -> (shared: Self)
        ensures
            shared.wf(),
            match policy@.max_requests_per_peer_per_second {
                Some(_) => shared@ is Some && shared@->0.is_unused(
                    policy@.peer_rate_limit_table_capacity,
                ),
                None => shared@ is None,
            },
    {
        let mut shared = Self::default();
        shared.prepare(policy);
        shared
    }

    /// Whether a request of `peer` may be rated now with this time and this hash:
    /// those of the limiter, and zeros where there is none to rate it.
    pub closed spec fn rates_now(&self, peer: Option<IpAddr>, tick: u32, hash: u64) -> bool {
        match (self.peer_rate_limiter, peer) {
            (Some(limiter), Some(peer)) => limiter.ticks(tick) && limiter.places(peer, hash),
            _ => tick == 0 && hash == 0,
        }
    }

    /// The time and the hash with which a request of `peer` is rated now; zeros
    /// where there is no limiter to rate it.
    pub fn rating_inputs(&self, peer: Option<IpAddr>) -> (inputs: (u32, u64))
        ensures
            self.rates_now(peer, inputs.0, inputs.1),
            self@ is None || peer is None ==> inputs == (0u32, 0u64),
    {
        match (&self.peer_rate_limiter, peer) {
            (Some(limiter), Some(peer)) => (limiter.current_tick(), limiter.peer_hash(peer)),
            _ => (0, 0),
        }
    }

    /// The hasher and the start with which requests are rated, where they are.
    pub closed spec fn origin(&self) -> Option<(RandomState, Instant)> {
        match self.peer_rate_limiter {
            Some(limiter) => Some(limiter.origin()),
            None => None,
        }
    }

    /// Whether one more request of `peer` is within its rate.
    pub fn allow_peer_request(&mut self, policy: &NacelleHttpPolicy, peer: IpAddr) -> (answer:
        NacellePeerRateLimitResult)
        requires
            old(self).wf(),
        ensures
            final(self).wf(),
            final(self).origin() == old(self).origin(),
            exists|tick: u32, hash: u64|
                {
                    &&& old(self).rates_now(Some(peer), tick, hash)
                    &&& (final(self)@, answer) == #[trigger] rated(
                        policy@,
                        old(self)@,
                        peer,
                        tick,
                        hash,
                    )
                },
    {
        let (tick, hash) = self.rating_inputs(Some(peer));
        self.allow_peer_request_at(policy, peer, tick, hash)
    }

    /// Whether one more request of `peer`, whose hash is `hash`, is within its
    /// rate at `tick`.
    pub fn allow_peer_request_at(
        &mut self,
        policy: &NacelleHttpPolicy,
        peer: IpAddr,
        tick: u32,
        hash: u64,
    ) -> (answer: NacellePeerRateLimitResult)
        requires
            old(self).wf(),
        ensures
            final(self).wf(),
            final(self).origin() == old(self).origin(),
            (final(self)@, answer) == rated(policy@, old(self)@, peer, tick, hash),
    {
        let limit: usize = match policy.max_requests_per_peer_per_second() {
            Some(limit) => limit,
            None => {
                return NacellePeerRateLimitResult::Allowed;
            },
        };
        let mut limiter = match self.peer_rate_limiter.take() {
            Some(limiter) => limiter,
            None => {
                return NacellePeerRateLimitResult::TableFull;
            },
        };
        let answer = limiter.try_acquire_at(peer, limit, tick, hash);
        self.peer_rate_limiter = Some(limiter);
        answer
    }
}

/// The reason that a peer which is not within its rate is given.
pub fn peer_rate_rejection_reason(answer: NacellePeerRateLimitResult) -> (reason: &'static str)
    requires
        answer != NacellePeerRateLimitResult::Allowed,
    ensures
        reason == (if answer == NacellePeerRateLimitResult::RateLimited {
            "peer_rate"
        } else {
            "peer_rate_table_full"
        }),
{
    if answer == NacellePeerRateLimitResult::RateLimited {
        "peer_rate"
    } else {
        "peer_rate_table_full"
    }
}

/// The reason that a peer whose connection is refused is counted under.
pub fn connection_rejection_reason(error: &NacelleError) -> (reason: &'static str)
    ensures
        reason == match *error {
            NacelleError::ResourceLimit(reason) => reason,
            _ => "connections",
        },
{
    match error {
        NacelleError::ResourceLimit(reason) => reason,
        _ => "connections",
    }
}

/// One line of the access log, besides the method and the URI.
#[derive(Debug, Clone, Copy)]
pub struct HttpAccessLog {
    pub peer_ip: Option<IpAddr>,
    pub status: u16,
    pub request_bytes: usize,
    pub elapsed: Duration,
    pub reason: Option<&'static str>,
}

/// A request that is answered without a handler.
#[derive(Debug)]
pub struct Refusal {
    pub status: u16,
    pub body: String,
    pub access_log: Option<HttpAccessLog>,
    pub updates: Vec<MetricUpdate>,
}

/// Whether a request goes to a handler.
#[derive(Debug)]
pub enum Admission {
    Admitted(TrackedPermit),
    Refused(Refusal),
}

/// Why a request does not go to a handler, if it does not.
pub enum Verdict {
    Admitted,
    Rejected(HttpRejection),
    /// Too many requests are in flight.
    Busy,
}

/// The judgement of a request, and the table of rates that follows. The policy is
/// asked first, then the peer's rate, then the number of requests in flight; what
/// an earlier one rejects does not count for the later ones.
pub open spec fn judged(
    rules: PolicyRules,
    head: HttpRequestHead,
    fields: Seq<(Seq<u8>, Seq<u8>)>,
    peer: Option<IpAddr>,
    table: Option<PeerTable>,
    counts: RuntimeCounts,
    limits: NacelleLimits,
    tick: u32,
    hash: u64,
) -> (Verdict, Option<PeerTable>) {
    let (next, answer) = match peer {
        Some(peer) => rated(rules, table, peer, tick, hash),
        None => (table, NacellePeerRateLimitResult::Allowed),
    };
    match rules.verdict(head, fields) {
        Some(rejection) => (Verdict::Rejected(rejection), table),
        None => match answer {
            NacellePeerRateLimitResult::RateLimited => (
                Verdict::Rejected(HttpRejection { status: 429, reason: "peer_rate" }),
                next,
            ),
            NacellePeerRateLimitResult::TableFull => (
                Verdict::Rejected(HttpRejection { status: 429, reason: "peer_rate_table_full" }),
                next,
            ),
            NacellePeerRateLimitResult::Allowed => if counts.requests
                >= limits.max_in_flight_requests {
                (Verdict::Busy, next)
            } else {
                (Verdict::Admitted, next)
            },
        },
    }
}

/// How a handler's work on a request ended.
#[derive(Debug)]
pub enum HandlerEvent {
    /// It responded with this status.
    Completed(u16),
    Failed(NacelleError),
    TimedOut,
}

/// What follows the end of a handler's work.
#[derive(Debug)]
pub struct Finished {
    /// The answer in place of the handler's, where it failed.
    pub failure: Option<FailureAnswer>,
    pub access_log: Option<HttpAccessLog>,
    pub updates: Vec<MetricUpdate>,
}

/// The answer to a request whose handler failed.
#[derive(Debug)]
pub struct FailureAnswer {
    pub status: u16,
    pub body: String,
}

/// Whether a connection is served.
#[derive(Debug)]
pub enum Acceptance {
    Opened { permit: TrackedPermit, connection: NacelleConnectionMeta, updates: Vec<MetricUpdate> },
    Refused { reason: &'static str, updates: Vec<MetricUpdate> },
}

/// How a TLS handshake ended.
#[derive(Debug)]
pub enum HandshakeEvent {
    Completed,
    Failed(String),
    TimedOut,
}

/// How a connection ended.
#[derive(Debug)]
pub enum ConnectionEvent {
    Finished,
    Failed(String),
    /// It reached its maximum age.
    TooOld,
}

/// How the drain of a listener's connections ended.
#[derive(Debug, Clone, Copy, PartialEq, Eq, Structural)]
pub enum DrainEvent {
    Completed,
    /// The time was up with this many connections left.
    TimedOut(usize),
}

/// The settings of one HTTP server, and its telemetry.
#[derive(Debug)]
pub struct HttpRuntime<Observer> {
    pub telemetry: NacelleTelemetry<Observer>,
    pub http_limits: NacelleHttpLimits,
    pub http_policy: NacelleHttpPolicy,
    pub access_log_enabled: bool,
    pub listener: String,
}

impl Default for HttpRuntime<NoopObserver> {
    fn default() -> (runtime: Self)
        ensures
            runtime.has_default_settings(),
            runtime.telemetry.observed_by() == NoopObserver,
    {
        Self::new(NacelleTelemetry::new())
    }
}

/// The line of the access log, where one is kept.
pub open spec fn logged(
    enabled: bool,
    peer_ip: Option<IpAddr>,
    status: u16,
    request_bytes: usize,
    elapsed: Duration,
    reason: Option<&'static str>,
) -> Option<HttpAccessLog> {
    if enabled {
        Some(HttpAccessLog { peer_ip, status, request_bytes, elapsed, reason })
    } else {
        None
    }
}

/// The text that answers a failed request.
pub open spec fn failure_text(error: NacelleError) -> Seq<char> {
    match error.advice() {
        Some(hint) => error.problem() + "; hint: "@ + hint@,
        None => error.problem(),
    }
}

/// The changes that go with a rejected request or connection.
pub open spec fn rejection_changes(reason: &'static str) -> Seq<MetricChange> {
    seq![
        counted("nacelle.rejections", seq![("transport"@, "http"@), ("reason"@, reason@)], 1),
    ]
}

/// The changes that go with a stage of shutdown.
pub open spec fn stage_changes(kind: NacelleTelemetryEventKind) -> Seq<MetricChange> {
    seq![
        counted(
            "nacelle.shutdown_events",
            seq![("transport"@, "http"@), ("stage"@, stage_of(kind)@)],
            1,
        ),
    ]
}

/// The changes that go with a timeout.
pub open spec fn timeout_changes(operation: &'static str) -> Seq<MetricChange> {
    seq![
        counted("nacelle.timeouts", seq![("transport"@, "http"@), ("operation"@, operation@)], 1),
    ]
}

impl<Observer> HttpRuntime<Observer> {
    /// Default limits, no policy, no access log, and the default listener.
    pub open spec fn has_default_settings(&self) -> bool {
        &&& self.http_limits.is_default()
        &&& self.http_policy.wf()
        &&& self.http_policy@ == super::policy::no_rules()
        &&& !self.access_log_enabled
        &&& self.listener@ == "direct"@
    }

    pub fn new(telemetry: NacelleTelemetry<Observer>) -> (runtime: Self)
        ensures
            runtime.has_default_settings(),
            runtime.telemetry == telemetry,
    {
        Self {
            telemetry,
            http_limits: NacelleHttpLimits::default(),
            http_policy: NacelleHttpPolicy::default(),
            access_log_enabled: false,
            listener: "direct".to_owned(),
        }
    }

    pub fn with_telemetry<Next>(self, telemetry: NacelleTelemetry<Next>) -> (runtime: HttpRuntime<Next>)
        ensures
            runtime.telemetry == telemetry,
            runtime.http_limits == self.http_limits,
            runtime.http_policy == self.http_policy,
            runtime.access_log_enabled == self.access_log_enabled,
            runtime.listener == self.listener,
    {
        HttpRuntime {
            telemetry,
            http_limits: self.http_limits,
            http_policy: self.http_policy,
            access_log_enabled: self.access_log_enabled,
            listener: self.listener,
        }
    }

    pub fn with_http_limits(self, http_limits: NacelleHttpLimits) -> (runtime: Self)
        ensures
            runtime == (HttpRuntime { http_limits, ..self }),
    {
        Self { http_limits, ..self }
    }

    pub fn with_http_policy(self, http_policy: NacelleHttpPolicy) -> (runtime: Self)
        ensures
            runtime == (HttpRuntime { http_policy, ..self }),
    {
        Self { http_policy, ..self }
    }

    pub fn with_access_log(self, enabled: bool) -> (runtime: Self)
        ensures
            runtime == (HttpRuntime { access_log_enabled: enabled, ..self }),
    {
        Self { access_log_enabled: enabled, ..self }
    }

    pub fn with_listener_label(self, listener: &str) -> (runtime: Self)
        ensures
            runtime.listener@ == listener@,
            runtime == (HttpRuntime { listener: runtime.listener, ..self }),
    {
        Self { listener: listener.to_owned(), ..self }
    }

    /// Whether the time that requests take is of interest.
    pub fn request_timing_enabled(&self) -> (enabled: bool)
        ensures
            enabled == (self.access_log_enabled
                || self.telemetry.configured().request_metrics.duration_ms),
    {
        self.access_log_enabled || self.telemetry.request_duration_metrics_enabled()
    }

    fn access_log(
        &self,
        peer_ip: Option<IpAddr>,
        status: u16,
        request_bytes: usize,
        elapsed: Duration,
        reason: Option<&'static str>,
    ) -> (log: Option<HttpAccessLog>)
        ensures
            log == logged(self.access_log_enabled, peer_ip, status, request_bytes, elapsed, reason),
    {
        if !self.access_log_enabled {
            return None;
        }
        Some(HttpAccessLog { peer_ip, status, request_bytes, elapsed, reason })
    }

    /// The response as it is sent: with the policy's headers, where it has none
    /// of their names.
    pub fn response_to_http(&self, response: HttpResponse) -> (sent: HttpResponse)
        requires
            self.http_policy.wf(),
            header_fields(response.headers).len() + self.http_policy@.security_headers.len()
                <= roomy_fields(),
        ensures
            sent.status == response.status,
            sent.body == response.body,
            header_fields(sent.headers) == with_missing(
                header_fields(response.headers),
                self.http_policy@.security_headers,
            ),
    {
        let mut headers = response.headers;
        self.http_policy.apply_security_headers(&mut headers);
        HttpResponse { status: response.status, headers, body: response.body }
    }

    /// The response as it is sent, or as it came where it and the policy have too
    /// many headers together.
    pub fn try_response_to_http(&self, response: HttpResponse) -> (sent: Result<
        HttpResponse,
        HttpResponse,
    >)
        requires
            self.http_policy.wf(),
        ensures
            if header_fields(response.headers).len() + self.http_policy@.security_headers.len()
                <= roomy_fields() {
                &&& sent is Ok
                &&& sent->Ok_0.status == response.status
                &&& sent->Ok_0.body == response.body
                &&& header_fields(sent->Ok_0.headers) == with_missing(
                    header_fields(response.headers),
                    self.http_policy@.security_headers,
                )
            } else {
                sent == Err::<HttpResponse, _>(response)
            },
    {
        let count: usize = header_count(&response.headers);
        let added: usize = self.http_policy.security_header_count();
        if count <= 6553 && added <= 6553 - count {
            Ok(self.response_to_http(response))
        } else {
            Err(response)
        }
    }

    /// The answer with a text, as it is sent.
    pub fn text_response(&self, status: u16, body: String) -> (sent: HttpResponse)
        requires
            self.http_policy.wf(),
            self.http_policy@.security_headers.len() <= roomy_fields(),
        ensures
            sent.status == status,
            sent.body@ == (BodyState {
                chunks: if encode_utf8(body@).len() == 0 {
                    BodyChunks::Buffered(Seq::empty())
                } else {
                    BodyChunks::Single(Some(encode_utf8(body@)))
                },
                remaining: encode_utf8(body@).len(),
                held: None,
            }),
            header_fields(sent.headers) == with_missing(
                Seq::empty(),
                self.http_policy@.security_headers,
            ),
    {
        self.response_to_http(HttpResponse::bytes(status, text_chunk(body)))
    }
}

impl<Observer: NacelleTelemetryObserver> HttpRuntime<Observer> {
    /// Whether only the telemetry differs, and `event` alone made the difference.
    pub open spec fn told(before: Self, event: NacelleTelemetryEvent, after: Self) -> bool {
        &&& after == HttpRuntime { telemetry: after.telemetry, ..before }
        &&& NacelleTelemetry::<Observer>::told(before.telemetry, event, after.telemetry)
    }

    /// Whether a request goes to a handler; `elapsed` is how long it has taken so
    /// far. Its peer is rated with the time and the hash of this moment, and what
    /// is stated holds for whichever these are.
    pub fn admit_request(
        &mut self,
        head: &HttpRequestHead,
        headers: &HeaderMap,
        peer: Option<IpAddr>,
        shared: &mut LocalHttpSharedState,
        state: &mut NacelleRuntimeState,
        elapsed: Duration,
    ) -> (admission: Admission)
        requires
            old(shared).wf(),
            old(state).wf(),
        ensures
            final(shared).wf(),
            final(shared).origin() == old(shared).origin(),
            final(state).wf(),
            final(state).limited_by() == old(state).limited_by(),
            final(state).origin() == old(state).origin(),
            exists|tick: u32, hash: u64|
                {
                    let (verdict, table) = #[trigger] judged(
                        old(self).http_policy@,
                        *head,
                        header_fields(*headers),
                        peer,
                        old(shared)@,
                        old(state)@,
                        old(state).limited_by(),
                        tick,
                        hash,
                    );
                    &&& old(shared).rates_now(peer, tick, hash)
                    &&& final(shared)@ == table
                    &&& Self::admits(
                        *old(self),
                        verdict,
                        peer,
                        old(state)@,
                        elapsed,
                        *final(self),
                        final(state)@,
                        admission,
                    )
                },
    {
        let (tick, hash) = shared.rating_inputs(peer);
        self.admit_request_at(head, headers, peer, shared, state, elapsed, tick, hash)
    }

    /// Whether `admission` is what a verdict leads to.
    pub open spec fn admits(
        before: Self,
        verdict: Verdict,
        peer: Option<IpAddr>,
        counts: RuntimeCounts,
        elapsed: Duration,
        after: Self,
        after_counts: RuntimeCounts,
        admission: Admission,
    ) -> bool {
        match verdict {
            Verdict::Admitted => {
                &&& admission is Admitted
                &&& admission->Admitted_0@ == PermitKind::Request
                &&& after == before
                &&& after_counts == RuntimeCounts { requests: counts.requests + 1, ..counts }
            },
            Verdict::Rejected(rejection) => {
                &&& admission is Refused
                &&& admission->Refused_0.status == rejection.status
                &&& admission->Refused_0.body@ == rejection.reason@
                &&& admission->Refused_0.access_log == logged(
                    before.access_log_enabled,
                    peer,
                    rejection.status,
                    0,
                    elapsed,
                    Some(rejection.reason),
                )
                &&& changes(admission->Refused_0.updates@) == rejection_changes(rejection.reason)
                &&& Self::told(
                    before,
                    event_of(
                        NacelleTelemetryEventKind::RequestRejected,
                        Some(http()),
                        Some(rejection.reason),
                        1,
                    ),
                    after,
                )
                &&& after_counts == counts
            },
            Verdict::Busy => {
                let error = NacelleError::ResourceLimit("in_flight_requests");
                &&& admission is Refused
                &&& admission->Refused_0.status == 503
                &&& admission->Refused_0.body@ == failure_text(error)
                &&& admission->Refused_0.access_log == logged(
                    before.access_log_enabled,
                    peer,
                    503,
                    0,
                    elapsed,
                    Some("in_flight_requests"),
                )
                &&& changes(admission->Refused_0.updates@) == failed_changes(
                    before.telemetry.configured().request_metrics,
                    http(),
                    elapsed@,
                )
                &&& Self::told(
                    before,
                    event_of(
                        NacelleTelemetryEventKind::RequestFailed,
                        Some(http()),
                        Some("in_flight_requests"),
                        1,
                    ),
                    after,
                )
                &&& after_counts == counts
            },
        }
    }

    /// Whether a request goes to a handler. Its peer, whose hash is `hash`, is
    /// rated at `tick`; `elapsed` is how long the request has taken so far.
    pub fn admit_request_at(
        &mut self,
        head: &HttpRequestHead,
        headers: &HeaderMap,
        peer: Option<IpAddr>,
        shared: &mut LocalHttpSharedState,
        state: &mut NacelleRuntimeState,
        elapsed: Duration,
        tick: u32,
        hash: u64,
    ) -> (admission: Admission)
        requires
            old(shared).wf(),
            old(state).wf(),
        ensures
            final(shared).wf(),
            final(shared).origin() == old(shared).origin(),
            final(state).wf(),
            final(state).limited_by() == old(state).limited_by(),
            final(state).origin() == old(state).origin(),
            ({
                let (verdict, table) = judged(
                    old(self).http_policy@,
                    *head,
                    header_fields(*headers),
                    peer,
                    old(shared)@,
                    old(state)@,
                    old(state).limited_by(),
                    tick,
                    hash,
                );
                &&& final(shared)@ == table
                &&& Self::admits(
                    *old(self),
                    verdict,
                    peer,
                    old(state)@,
                    elapsed,
                    *final(self),
                    final(state)@,
                    admission,
                )
            }),
    {
        if let Some(rejection) = self.http_policy.validate_http_policy(head, headers) {
            return Admission::Refused(self.reject(rejection, peer, elapsed));
        }
        if let Some(peer_ip) = peer {
            let answer = shared.allow_peer_request_at(&self.http_policy, peer_ip, tick, hash);
            if !answer.is_allowed() {
                let reason = peer_rate_rejection_reason(answer);
                let rejection = HttpRejection { status: 429, reason };
                return Admission::Refused(self.reject(rejection, peer, elapsed));
            }
        }
        match state.acquire_request_tracked() {
            Ok(permit) => Admission::Admitted(permit),
            Err(error) => {
                let updates = self.telemetry.request_failed(
                    NacelleTransport::new("http"),
                    elapsed,
                    &error,
                );
                let access_log = self.access_log(peer, 503, 0, elapsed, Some("in_flight_requests"));
                Admission::Refused(
                    Refusal { status: 503, body: error.to_string(), access_log, updates },
                )
            },
        }
    }

    fn reject(&mut self, rejection: HttpRejection, peer: Option<IpAddr>, elapsed: Duration) -> (refusal:
        Refusal)
        ensures
            Self::told(
                *old(self),
                event_of(
                    NacelleTelemetryEventKind::RequestRejected,
                    Some(http()),
                    Some(rejection.reason),
                    1,
                ),
                *final(self),
            ),
            refusal.status == rejection.status,
            refusal.body@ == rejection.reason@,
            refusal.access_log == logged(
                old(self).access_log_enabled,
                peer,
                rejection.status,
                0,
                elapsed,
                Some(rejection.reason),
            ),
            changes(refusal.updates@) == rejection_changes(rejection.reason),
    {
        let updates = self.telemetry.request_rejected(
            NacelleTransport::new("http"),
            rejection.reason,
        );
        let access_log = self.access_log(
            peer,
            rejection.status,
            0,
            elapsed,
            Some(rejection.reason),
        );
        Refusal { status: rejection.status, body: rejection.reason.to_owned(), access_log, updates }
    }

    /// Whether the end of a handler's work leads to `result`, and to `after`.
    pub open spec fn finishes(
        before: Self,
        event: HandlerEvent,
        peer: Option<IpAddr>,
        request_bytes: usize,
        elapsed: Duration,
        result: Result<Finished, NacelleError>,
        after: Self,
    ) -> bool {
        match event {
            HandlerEvent::TimedOut => result == Err::<Finished, _>(
                NacelleError::Timeout("handler"),
            ) && after == before,
            HandlerEvent::Completed(status) => {
                &&& result is Ok
                &&& result->Ok_0.failure is None
                &&& result->Ok_0.access_log == logged(
                    before.access_log_enabled,
                    peer,
                    status,
                    request_bytes,
                    elapsed,
                    None,
                )
                &&& changes(result->Ok_0.updates@) == completed_changes(
                    before.telemetry.configured().request_metrics,
                    http(),
                    request_bytes as nat,
                    0,
                    elapsed@,
                )
                &&& Self::told(
                    before,
                    event_of(
                        NacelleTelemetryEventKind::RequestCompleted,
                        Some(http()),
                        None,
                        1,
                    ),
                    after,
                )
            },
            HandlerEvent::Failed(error) => {
                &&& result is Ok
                &&& result->Ok_0.failure is Some
                &&& result->Ok_0.failure->0.status == 500
                &&& result->Ok_0.failure->0.body@ == failure_text(error)
                &&& result->Ok_0.access_log == logged(
                    before.access_log_enabled,
                    peer,
                    500,
                    request_bytes,
                    elapsed,
                    Some("handler"),
                )
                &&& changes(result->Ok_0.updates@) == failed_changes(
                    before.telemetry.configured().request_metrics,
                    http(),
                    elapsed@,
                ) + completed_changes(
                    before.telemetry.configured().request_metrics,
                    http(),
                    request_bytes as nat,
                    0,
                    elapsed@,
                )
                &&& exists|between: Self|
                    {
                        &&& #[trigger] Self::told(
                            before,
                            event_of(
                                NacelleTelemetryEventKind::RequestFailed,
                                Some(http()),
                                reason_of(error),
                                1,
                            ),
                            between,
                        )
                        &&& Self::told(
                            between,
                            event_of(
                                NacelleTelemetryEventKind::RequestCompleted,
                                Some(http()),
                                None,
                                1,
                            ),
                            after,
                        )
                    }
            },
        }
    }

    /// What follows the end of a handler's work on an admitted request. A handler
    /// that took too long ends the connection; one that failed is answered for.
    /// `request_bytes` is how much of the request body was read.
    pub fn finish_request(
        &mut self,
        event: HandlerEvent,
        peer: Option<IpAddr>,
        request_bytes: usize,
        elapsed: Duration,
    ) -> (result: Result<Finished, NacelleError>)
        ensures
            Self::finishes(*old(self), event, peer, request_bytes, elapsed, result, *final(self)),
    {
        match event {
            HandlerEvent::TimedOut => Err(NacelleError::Timeout("handler")),
            HandlerEvent::Completed(status) => {
                let access_log = self.access_log(peer, status, request_bytes, elapsed, None);
                let updates = self.telemetry.request_completed(
                    NacelleTransport::new("http"),
                    request_bytes,
                    0,
                    elapsed,
                );
                Ok(Finished { failure: None, access_log, updates })
            },
            HandlerEvent::Failed(error) => {
                let mut updates = self.telemetry.request_failed(
                    NacelleTransport::new("http"),
                    elapsed,
                    &error,
                );
                let ghost between = *self;
                let access_log = self.access_log(
                    peer,
                    500,
                    request_bytes,
                    elapsed,
                    Some("handler"),
                );
                let mut completed = self.telemetry.request_completed(
                    NacelleTransport::new("http"),
                    request_bytes,
                    0,
                    elapsed,
                );
                let ghost first = changes(updates@);
                let ghost second = changes(completed@);
                updates.append(&mut completed);
                proof {
                    assert(changes(updates@) =~= first + second);
                    assert(Self::told(
                        *old(self),
                        event_of(
                            NacelleTelemetryEventKind::RequestFailed,
                            Some(http()),
                            reason_of(error),
                            1,
                        ),
                        between,
                    ));
                }
                let failure = FailureAnswer { status: 500, body: error.to_string() };
                Ok(Finished { failure: Some(failure), access_log, updates })
            },
        }
    }

    /// Whether a connection is served. Its peer is rated with the time and the
    /// hash of this moment; what is stated holds for whichever these are.
    pub fn accept_connection(
        &mut self,
        state: &mut NacelleRuntimeState,
        ids: &mut ConnectionIds,
        peer_addr: SocketAddr,
        local_addr: Option<SocketAddr>,
    ) -> (acceptance: Acceptance)
        requires
            old(state).wf(),
        ensures
            final(state).wf(),
            final(state).limited_by() == old(state).limited_by(),
            final(state).origin() == old(state).origin(),
            exists|result: Result<TrackedPermit, NacelleError>|
                {
                    &&& exists|tick: u32, hash: u64|
                        old(state).rates_now(peer_addr.ip, tick, hash) && #[trigger] opens_with(
                            old(state)@,
                            old(state).limited_by(),
                            peer_addr.ip,
                            tick,
                            hash,
                            final(state)@,
                            result,
                        )
                    &&& #[trigger] Self::accepts(
                        *old(self),
                        old(ids)@,
                        peer_addr,
                        local_addr,
                        result,
                        *final(self),
                        final(ids)@,
                        acceptance,
                    )
                },
    {
        let result = state.acquire_connection_for_peer(peer_addr.ip);
        let ghost decided = result;
        let acceptance = self.on_connection(result, ids, peer_addr, local_addr);
        assert(Self::accepts(
            *old(self),
            old(ids)@,
            peer_addr,
            local_addr,
            decided,
            *self,
            ids@,
            acceptance,
        ));
        acceptance
    }

    /// Whether `acceptance` is what the answer of the limits leads to.
    pub open spec fn accepts(
        before: Self,
        ids: nat,
        peer_addr: SocketAddr,
        local_addr: Option<SocketAddr>,
        result: Result<TrackedPermit, NacelleError>,
        after: Self,
        after_ids: nat,
        acceptance: Acceptance,
    ) -> bool {
        match result {
            Ok(permit) => {
                &&& acceptance is Opened
                &&& acceptance->permit == permit
                &&& acceptance->connection.connection_id == ids
                &&& acceptance->connection.transport@ == "http"@
                &&& acceptance->connection.listener@ == before.listener@
                &&& acceptance->connection.peer_addr == Some(peer_addr)
                &&& acceptance->connection.peer_ip == Some(peer_addr.ip)
                &&& acceptance->connection.local_addr == local_addr
                &&& acceptance->connection.local_path is None
                &&& acceptance->connection.tls is None
                &&& changes(acceptance->Opened_updates@) == seq![
                    counted("nacelle.connections.opened", transport_label(http()), 1),
                ]
                &&& Self::told(
                    before,
                    event_of(NacelleTelemetryEventKind::ConnectionOpened, Some(http()), None, 1),
                    after,
                )
                &&& after_ids == following_id(ids)
            },
            Err(error) => {
                let reason = match error {
                    NacelleError::ResourceLimit(reason) => reason,
                    _ => "connections",
                };
                &&& acceptance is Refused
                &&& acceptance->reason == reason
                &&& changes(acceptance->Refused_updates@) == rejection_changes(reason)
                &&& Self::told(
                    before,
                    event_of(
                        NacelleTelemetryEventKind::ConnectionRejected,
                        Some(http()),
                        Some(reason),
                        1,
                    ),
                    after,
                )
                &&& after_ids == ids
            },
        }
    }

    /// Whether a connection is served, given the answer of the limits.
    pub fn on_connection(
        &mut self,
        result: Result<TrackedPermit, NacelleError>,
        ids: &mut ConnectionIds,
        peer_addr: SocketAddr,
        local_addr: Option<SocketAddr>,
    ) -> (acceptance: Acceptance)
        ensures
            Self::accepts(
                *old(self),
                old(ids)@,
                peer_addr,
                local_addr,
                result,
                *final(self),
                final(ids)@,
                acceptance,
            ),
    {
        match result {
            Ok(permit) => {
                let updates = self.telemetry.connection_opened(NacelleTransport::new("http"));
                let connection = NacelleConnectionMeta::http_socket(
                    ids,
                    Some(peer_addr),
                    local_addr,
                ).with_listener(self.listener.as_str());
                Acceptance::Opened { permit, connection, updates }
            },
            Err(error) => {
                let reason = connection_rejection_reason(&error);
                let updates = self.telemetry.connection_rejected(
                    NacelleTransport::new("http"),
                    reason,
                );
                Acceptance::Refused { reason, updates }
            },
        }
    }

    /// Whether the end of a handshake leads to `next`, and to `after`.
    pub open spec fn shakes(
        before: Self,
        event: HandshakeEvent,
        next: (Result<(), NacelleError>, Vec<MetricUpdate>),
        after: Self,
    ) -> bool {
        match event {
            HandshakeEvent::Completed => next.0 is Ok && changes(next.1@).len() == 0
                && after == before,
            HandshakeEvent::Failed(error) => next.0 == Err::<(), _>(
                NacelleError::Protocol(error),
            ) && changes(next.1@).len() == 0 && after == before,
            HandshakeEvent::TimedOut => next.0 == Err::<(), _>(
                NacelleError::Timeout("tls_handshake"),
            ) && changes(next.1@) == timeout_changes("tls_handshake") && Self::told(
                before,
                event_of(
                    NacelleTelemetryEventKind::Timeout,
                    Some(http()),
                    Some("tls_handshake"),
                    1,
                ),
                after,
            ),
        }
    }

    /// What follows the end of a TLS handshake.
    pub fn on_handshake(&mut self, event: HandshakeEvent) -> (next: (
        Result<(), NacelleError>,
        Vec<MetricUpdate>,
    ))
        ensures
            Self::shakes(*old(self), event, next, *final(self)),
    {
        match event {
            HandshakeEvent::Completed => (Ok(()), no_updates()),
            HandshakeEvent::Failed(error) => (Err(NacelleError::protocol(error)), no_updates()),
            HandshakeEvent::TimedOut => {
                let updates = self.telemetry.timeout(
                    NacelleTransport::new("http"),
                    "tls_handshake",
                );
                (Err(NacelleError::Timeout("tls_handshake")), updates)
            },
        }
    }

    /// Whether the end of a connection leads to `next`, and to `after`.
    pub open spec fn closes(
        before: Self,
        event: ConnectionEvent,
        next: (Result<(), NacelleError>, Vec<MetricUpdate>),
        after: Self,
    ) -> bool {
        match event {
            ConnectionEvent::Finished => next.0 is Ok && changes(next.1@).len() == 0
                && after == before,
            ConnectionEvent::Failed(error) => next.0 == Err::<(), _>(
                NacelleError::Protocol(error),
            ) && changes(next.1@).len() == 0 && after == before,
            ConnectionEvent::TooOld => next.0 == Err::<(), _>(
                NacelleError::Timeout("http_max_connection_age"),
            ) && changes(next.1@) == timeout_changes("http_max_connection_age") && Self::told(
                before,
                event_of(
                    NacelleTelemetryEventKind::Timeout,
                    Some(http()),
                    Some("http_max_connection_age"),
                    1,
                ),
                after,
            ),
        }
    }

    /// What follows the end of a connection.
    pub fn on_connection_end(&mut self, event: ConnectionEvent) -> (next: (
        Result<(), NacelleError>,
        Vec<MetricUpdate>,
    ))
        ensures
            Self::closes(*old(self), event, next, *final(self)),
    {
        match event {
            ConnectionEvent::Finished => (Ok(()), no_updates()),
            ConnectionEvent::Failed(error) => (Err(NacelleError::protocol(error)), no_updates()),
            ConnectionEvent::TooOld => {
                let updates = self.telemetry.timeout(
                    NacelleTransport::new("http"),
                    "http_max_connection_age",
                );
                (Err(NacelleError::Timeout("http_max_connection_age")), updates)
            },
        }
    }

    /// The listener accepts no more connections, and those that are open drain.
    pub fn begin_drain(&mut self) -> (updates: Vec<MetricUpdate>)
        ensures
            changes(updates@) == stage_changes(NacelleTelemetryEventKind::ListenerStoppedAccepting)
                + stage_changes(NacelleTelemetryEventKind::DrainStarted),
            exists|between: Self|
                {
                    &&& #[trigger] Self::told(
                        *old(self),
                        event_of(
                            NacelleTelemetryEventKind::ListenerStoppedAccepting,
                            Some(http()),
                            None,
                            1,
                        ),
                        between,
                    )
                    &&& Self::told(
                        between,
                        event_of(NacelleTelemetryEventKind::DrainStarted, Some(http()), None, 1),
                        *final(self),
                    )
                },
    {
        let mut updates = self.telemetry.shutdown_event(
            NacelleTelemetryEventKind::ListenerStoppedAccepting,
            NacelleTransport::new("http"),
        );
        let ghost between = *self;
        let mut started = self.telemetry.shutdown_event(
            NacelleTelemetryEventKind::DrainStarted,
            NacelleTransport::new("http"),
        );
        let ghost first = changes(updates@);
        let ghost second = changes(started@);
        updates.append(&mut started);
        proof {
            assert(changes(updates@) =~= first + second);
            assert(Self::told(
                *old(self),
                event_of(
                    NacelleTelemetryEventKind::ListenerStoppedAccepting,
                    Some(http()),
                    None,
                    1,
                ),
                between,
            ));
        }
        updates
    }

    /// Whether the end of a drain leads to `next`, and to `after`.
    pub open spec fn drains(
        before: Self,
        event: DrainEvent,
        next: (bool, Vec<MetricUpdate>),
        after: Self,
    ) -> bool {
        match event {
            DrainEvent::Completed => !next.0 && changes(next.1@) == stage_changes(
                NacelleTelemetryEventKind::DrainCompleted,
            ) && Self::told(
                before,
                event_of(NacelleTelemetryEventKind::DrainCompleted, Some(http()), None, 1),
                after,
            ),
            DrainEvent::TimedOut(left) => next.0 && changes(next.1@) == stage_changes(
                NacelleTelemetryEventKind::DrainTimedOut,
            ) + seq![
                counted("nacelle.connection_aborts", transport_label(http()), left as nat),
            ] && exists|between: Self|
                {
                    &&& #[trigger] Self::told(
                        before,
                        event_of(
                            NacelleTelemetryEventKind::DrainTimedOut,
                            Some(http()),
                            None,
                            1,
                        ),
                        between,
                    )
                    &&& Self::told(
                        between,
                        event_of(
                            NacelleTelemetryEventKind::ConnectionsAborted,
                            Some(http()),
                            None,
                            left as u64,
                        ),
                        after,
                    )
                },
        }
    }

    /// The drain has ended. Returns whether the connections that are left are
    /// aborted.
    pub fn end_drain(&mut self, event: DrainEvent) -> (next: (bool, Vec<MetricUpdate>))
        ensures
            Self::drains(*old(self), event, next, *final(self)),
    {
        match event {
            DrainEvent::Completed => {
                let updates = self.telemetry.shutdown_event(
                    NacelleTelemetryEventKind::DrainCompleted,
                    NacelleTransport::new("http"),
                );
                (false, updates)
            },
            DrainEvent::TimedOut(left) => {
                let mut updates = self.telemetry.shutdown_event(
                    NacelleTelemetryEventKind::DrainTimedOut,
                    NacelleTransport::new("http"),
                );
                let ghost between = *self;
                let mut aborted = self.telemetry.connections_aborted(
                    NacelleTransport::new("http"),
                    left,
                );
                let ghost first = changes(updates@);
                let ghost second = changes(aborted@);
                updates.append(&mut aborted);
                proof {
                    assert(changes(updates@) =~= first + second);
                    assert(Self::told(
                        *old(self),
                        event_of(
                            NacelleTelemetryEventKind::DrainTimedOut,
                            Some(http()),
                            None,
                            1,
                        ),
                        between,
                    ));
                }
                (true, updates)
            },
        }
    }
}

/// What was negotiated on a connection, by the texts of its parts.
pub fn rustls_tls_meta(
    protocol: Option<String>,
    cipher_suite: Option<String>,
    server_name: Option<String>,
) -> (meta: NacelleConnectionTlsMeta)
    ensures
        meta.provider == "rustls",
        meta.protocol == protocol,
        meta.cipher_suite == cipher_suite,
        meta.cipher_bits is None,
        meta.cipher_algorithm_bits is None,
        meta.server_name == server_name,
{
    let meta = NacelleConnectionTlsMeta::new("rustls");
    NacelleConnectionTlsMeta { protocol, cipher_suite, server_name, ..meta }
}

/// A request that the policy rejects is not counted against its peer, nor among
/// the requests in flight.
pub proof fn law_rejected_requests_are_not_counted(
    rules: PolicyRules,
    head: HttpRequestHead,
    fields: Seq<(Seq<u8>, Seq<u8>)>,
    peer: Option<IpAddr>,
    table: Option<PeerTable>,
    counts: RuntimeCounts,
    limits: NacelleLimits,
    tick: u32,
    hash: u64,
)
    requires
        rules.verdict(head, fields) is Some,
    ensures
        judged(rules, head, fields, peer, table, counts, limits, tick, hash) == (
            Verdict::Rejected(rules.verdict(head, fields)->0),
            table,
        ),
{
}

/// A policy without a limit on the rate of requests finds every peer within it.
pub proof fn law_unlimited_peers_are_always_within_their_rate(
    rules: PolicyRules,
    table: Option<PeerTable>,
    peer: IpAddr,
    tick: u32,
    hash: u64,
)
    requires
        rules.max_requests_per_peer_per_second is None,
    ensures
        rated(rules, table, peer, tick, hash) == (table, NacellePeerRateLimitResult::Allowed),
{
}

/// A request as it is rated: whose it is and when it comes.
pub struct RatedRequest {
    pub peer: IpAddr,
    pub tick: u32,
}

/// The table of rates after a run of requests, each placed by its peer's hash.
pub open spec fn rated_run(
    rules: PolicyRules,
    table: Option<PeerTable>,
    requests: Seq<RatedRequest>,
    hash: spec_fn(PeerRateKey) -> u64,
) -> Option<PeerTable>
    decreases requests.len(),
{
    if requests.len() == 0 {
        table
    } else {
        let last = requests.last();
        rated(
            rules,
            rated_run(rules, table, requests.drop_last(), hash),
            last.peer,
            last.tick,
            hash(key_of(last.peer)),
        ).0
    }
}

/// How many of a run's requests of `peer` at `tick` were within its rate.
pub open spec fn allowed_requests(
    rules: PolicyRules,
    table: Option<PeerTable>,
    requests: Seq<RatedRequest>,
    hash: spec_fn(PeerRateKey) -> u64,
    peer: IpAddr,
    tick: u32,
) -> nat
    decreases requests.len(),
{
    if requests.len() == 0 {
        0
    } else {
        let last = requests.last();
        let earlier = requests.drop_last();
        let answer = rated(
            rules,
            rated_run(rules, table, earlier, hash),
            last.peer,
            last.tick,
            hash(key_of(last.peer)),
        ).1;
        allowed_requests(rules, table, earlier, hash, peer, tick) + if last.peer == peer
            && last.tick == tick && answer == NacellePeerRateLimitResult::Allowed {
            1nat
        } else {
            0nat
        }
    }
}

/// The attempts that a run of requests makes on the table.
spec fn attempts(requests: Seq<RatedRequest>, limit: nat) -> Seq<PeerEvent> {
    Seq::new(
        requests.len(),
        |i: int|
            PeerEvent { key: key_of(requests[i].peer), limit, tick: requests[i].tick as nat },
    )
}

/// A run of requests is a run of attempts on the table.
proof fn lemma_run_of_attempts(
    rules: PolicyRules,
    table: PeerTable,
    requests: Seq<RatedRequest>,
    hash: spec_fn(PeerRateKey) -> u64,
    peer: IpAddr,
    tick: u32,
)
    requires
        rules.max_requests_per_peer_per_second is Some,
    ensures
        ({
            let limit = rules.max_requests_per_peer_per_second->0 as nat;
            let events = attempts(requests, limit);
            &&& rated_run(rules, Some(table), requests, hash) == Some(after(table, events, hash))
            &&& allowed_requests(rules, Some(table), requests, hash, peer, tick) <= admissions(
                table,
                events,
                hash,
                key_of(peer),
                tick as nat,
            )
        }),
    decreases requests.len(),
{
    let limit = rules.max_requests_per_peer_per_second->0 as nat;
    if requests.len() > 0 {
        lemma_run_of_attempts(rules, table, requests.drop_last(), hash, peer, tick);
        assert(attempts(requests, limit).drop_last() =~= attempts(requests.drop_last(), limit));
    }
}

/// Of the requests of a peer in one second no more are admitted than the policy
/// says, however many come, from however many peers and by however many listeners
/// that share the table.
pub proof fn law_peers_stay_within_their_rate(
    rules: PolicyRules,
    table: PeerTable,
    requests: Seq<RatedRequest>,
    hash: spec_fn(PeerRateKey) -> u64,
    peer: IpAddr,
    tick: u32,
)
    requires
        rules.max_requests_per_peer_per_second is Some,
        table.wf(),
        table.active == 0,
        forall|i: int, j: int|
            0 <= i <= j < requests.len() ==> (#[trigger] requests[i]).tick <= (
            #[trigger] requests[j]).tick,
    ensures
        allowed_requests(rules, Some(table), requests, hash, peer, tick)
            <= rules.max_requests_per_peer_per_second->0,
{
    let limit = rules.max_requests_per_peer_per_second->0 as nat;
    lemma_run_of_attempts(rules, table, requests, hash, peer, tick);
    law_window_budget(table, attempts(requests, limit), hash, key_of(peer), tick as nat, limit);
}

/// A request goes to a handler exactly if the policy has nothing against it, its
/// peer is within its rate, and fewer requests are in flight than may be. Of what
/// stands against it the first in this order is named: the policy's own answer,
/// 429, or busy. Only what the policy lets pass is rated.
pub proof fn law_requests_are_judged_in_order(
    rules: PolicyRules,
    head: HttpRequestHead,
    fields: Seq<(Seq<u8>, Seq<u8>)>,
    peer: Option<IpAddr>,
    table: Option<PeerTable>,
    counts: RuntimeCounts,
    limits: NacelleLimits,
    tick: u32,
    hash: u64,
)
    ensures
        ({
            let (verdict, next) = judged(
                rules,
                head,
                fields,
                peer,
                table,
                counts,
                limits,
                tick,
                hash,
            );
            let passes = rules.verdict(head, fields) is None;
            let answer = match peer {
                Some(peer) => rated(rules, table, peer, tick, hash).1,
                None => NacellePeerRateLimitResult::Allowed,
            };
            let within = answer == NacellePeerRateLimitResult::Allowed;
            &&& verdict is Admitted <==> passes && within && counts.requests
                < limits.max_in_flight_requests
            &&& verdict is Busy <==> passes && within && counts.requests
                >= limits.max_in_flight_requests
            &&& verdict is Rejected <==> !passes || !within
            &&& !passes ==> verdict->Rejected_0 == rules.verdict(head, fields)->0 && next == table
            &&& passes && !within ==> verdict->Rejected_0.status == 429
            &&& passes && answer == NacellePeerRateLimitResult::RateLimited
                ==> verdict->Rejected_0.reason@ == "peer_rate"@
            &&& passes && answer == NacellePeerRateLimitResult::TableFull
                ==> verdict->Rejected_0.reason@ == "peer_rate_table_full"@
            &&& peer is None ==> next == table
            &&& passes && peer is Some ==> next == rated(rules, table, peer->0, tick, hash).0
        }),
{
}

/// Where a policy limits the rate of requests, a remembered peer of which fewer
/// requests than the limit were counted in this second is within its rate, and one
/// of which as many were counted is not. Without a table nobody is.
pub proof fn law_peers_below_their_rate_are_within_it(
    rules: PolicyRules,
    table: PeerTable,
    hash: spec_fn(PeerRateKey) -> u64,
    now: nat,
    peer: IpAddr,
    index: int,
    tick: u32,
)
    requires
        rules.max_requests_per_peer_per_second is Some,
        rules.max_requests_per_peer_per_second->0 > 0,
        table.orderly(hash, now),
        now <= tick,
        table.holds(index, key_of(peer)),
    ensures
        ({
            let limit = rules.max_requests_per_peer_per_second->0;
            let used = table.used(key_of(peer), tick as nat);
            let answer = rated(rules, Some(table), peer, tick, hash(key_of(peer))).1;
            &&& used < limit && used < u32::MAX ==> answer == NacellePeerRateLimitResult::Allowed
            &&& used >= limit ==> answer == NacellePeerRateLimitResult::RateLimited
            &&& rated(rules, None, peer, tick, hash(key_of(peer))).1
                == NacellePeerRateLimitResult::TableFull
        }),
{
    let limit = rules.max_requests_per_peer_per_second->0 as nat;
    law_known_peers_are_admitted_below_their_limit(
        table,
        hash,
        now,
        key_of(peer),
        index,
        limit,
        tick as nat,
    );
    law_attempt_counts_its_peer_alone(
        table,
        hash,
        now,
        PeerEvent { key: key_of(peer), limit, tick: tick as nat },
        key_of(peer),
    );
}

/// An admitted request counts among those in flight and is told nobody of; a
/// refused one counts nowhere there, and is answered with the status and the reason
/// of its rejection, or with 503 where too many are in flight. The access log, where
/// one is kept, has the status of the answer, the peer, the time and no bytes.
pub proof fn law_refusals_are_answered_as_judged<Observer: NacelleTelemetryObserver>(
    before: HttpRuntime<Observer>,
    verdict: Verdict,
    peer: Option<IpAddr>,
    counts: RuntimeCounts,
    elapsed: Duration,
    after: HttpRuntime<Observer>,
    after_counts: RuntimeCounts,
    admission: Admission,
)
    requires
        HttpRuntime::<Observer>::admits(
            before,
            verdict,
            peer,
            counts,
            elapsed,
            after,
            after_counts,
            admission,
        ),
    ensures
        admission is Admitted <==> verdict is Admitted,
        admission is Admitted ==> after_counts.requests == counts.requests + 1 && after == before,
        admission is Refused ==> after_counts == counts,
        after_counts.connections == counts.connections,
        after_counts.streaming_tasks == counts.streaming_tasks,
        admission matches Admission::Refused(refusal) ==> {
            &&& verdict matches Verdict::Rejected(rejection) ==> refusal.status == rejection.status
                && refusal.body@ == rejection.reason@
            &&& verdict is Busy ==> refusal.status == 503
            &&& refusal.access_log is Some <==> before.access_log_enabled
            &&& refusal.access_log matches Some(line) ==> {
                &&& line.status == refusal.status
                &&& line.peer_ip == peer
                &&& line.request_bytes == 0
                &&& line.elapsed == elapsed
                &&& line.reason is Some
                &&& verdict matches Verdict::Rejected(rejection) ==> line.reason
                    == Some(rejection.reason)
                &&& verdict is Busy ==> line.reason == Some("in_flight_requests")
            }
        },
{
}

/// A handler that responds is logged with its status and nothing is answered in its
/// place; one that fails is answered for with 500 and the text of its error; one
/// that takes too long ends the connection. What was read of the body is logged.
pub proof fn law_failed_handlers_are_answered_for<Observer: NacelleTelemetryObserver>(
    before: HttpRuntime<Observer>,
    event: HandlerEvent,
    peer: Option<IpAddr>,
    request_bytes: usize,
    elapsed: Duration,
    result: Result<Finished, NacelleError>,
    after: HttpRuntime<Observer>,
)
    requires
        HttpRuntime::<Observer>::finishes(
            before,
            event,
            peer,
            request_bytes,
            elapsed,
            result,
            after,
        ),
    ensures
        result is Err <==> event is TimedOut,
        result matches Err(error) ==> error == NacelleError::Timeout("handler") && after == before,
        result matches Ok(finished) ==> {
            &&& finished.failure is Some <==> event is Failed
            &&& finished.failure matches Some(answer) ==> answer.status == 500
            &&& event matches HandlerEvent::Failed(error) ==> finished.failure->0.body@
                == failure_text(error)
            &&& finished.access_log is Some <==> before.access_log_enabled
            &&& finished.access_log matches Some(line) ==> {
                &&& line.peer_ip == peer
                &&& line.request_bytes == request_bytes
                &&& line.elapsed == elapsed
                &&& event matches HandlerEvent::Completed(status) ==> line.status == status
                    && line.reason is None
                &&& event is Failed ==> line.status == 500 && line.reason == Some("handler")
            }
        },
{
}

/// A failure is answered with its problem, and with a hint behind it where there is
/// one; the problem names what came with the error.
pub proof fn law_failures_are_put_into_words(error: NacelleError, text: String)
    requires
        call_ensures(NacelleError::to_string, (&error,), text),
    ensures
        text@ == failure_text(error),
        error.problem().is_prefix_of(text@),
        error.advice() is None ==> text@ == error.problem(),
        error.advice() matches Some(hint) ==> text@.len() == error.problem().len() + 8 + hint@.len()
            && text@.skip(error.problem().len() as int + 8) == hint@,
{
    reveal_strlit("; hint: ");
    if let Some(hint) = error.advice() {
        let problem = error.problem();
        assert("; hint: "@.len() == 8);
        assert(text@.skip(problem.len() as int + 8) =~= hint@);
    }
}

/// A connection is served exactly if the limits gave a permit, which goes with it. It
/// then has the next id, the peer's address and the listener's label, and the id is
/// spent; otherwise no id is, and the limit that was reached is named.
pub proof fn law_served_connections_have_a_permit<Observer: NacelleTelemetryObserver>(
    before: HttpRuntime<Observer>,
    ids: nat,
    peer_addr: SocketAddr,
    local_addr: Option<SocketAddr>,
    result: Result<TrackedPermit, NacelleError>,
    after: HttpRuntime<Observer>,
    after_ids: nat,
    acceptance: Acceptance,
)
    requires
        HttpRuntime::<Observer>::accepts(
            before,
            ids,
            peer_addr,
            local_addr,
            result,
            after,
            after_ids,
            acceptance,
        ),
    ensures
        acceptance is Opened <==> result is Ok,
        acceptance matches Acceptance::Opened { permit, connection, .. } ==> {
            &&& result matches Ok(given) && permit == given
            &&& connection.connection_id == ids
            &&& connection.peer_addr == Some(peer_addr)
            &&& connection.peer_ip == Some(peer_addr.ip)
            &&& connection.local_addr == local_addr
            &&& connection.listener@ == before.listener@
            &&& ids < u64::MAX ==> after_ids == ids + 1
        },
        acceptance matches Acceptance::Refused { reason, .. } ==> {
            &&& after_ids == ids
            &&& result matches Err(NacelleError::ResourceLimit(limit)) ==> reason == limit
        },
{
}

/// A connection goes on after its handshake exactly if that succeeded, and ends well
/// exactly if it finished; a failure is handed on, and running out of time is told
/// as such. A drain aborts what is left exactly if it ran out of time.
pub proof fn law_connections_end_as_they_went<Observer: NacelleTelemetryObserver>(
    before: HttpRuntime<Observer>,
    after: HttpRuntime<Observer>,
    handshake: HandshakeEvent,
    shaken: (Result<(), NacelleError>, Vec<MetricUpdate>),
    end: ConnectionEvent,
    ended: (Result<(), NacelleError>, Vec<MetricUpdate>),
    drain: DrainEvent,
    drained: (bool, Vec<MetricUpdate>),
)
    ensures
        HttpRuntime::<Observer>::shakes(before, handshake, shaken, after) ==> {
            &&& shaken.0 is Ok <==> handshake is Completed
            &&& handshake matches HandshakeEvent::Failed(error) ==> shaken.0 == Err::<(), _>(
                NacelleError::Protocol(error),
            )
            &&& handshake is TimedOut ==> shaken.0 == Err::<(), _>(
                NacelleError::Timeout("tls_handshake"),
            )
            &&& changes(shaken.1@).len() == if handshake is TimedOut {
                1int
            } else {
                0
            }
        },
        HttpRuntime::<Observer>::closes(before, end, ended, after) ==> {
            &&& ended.0 is Ok <==> end is Finished
            &&& end matches ConnectionEvent::Failed(error) ==> ended.0 == Err::<(), _>(
                NacelleError::Protocol(error),
            )
            &&& end is TooOld ==> ended.0 == Err::<(), _>(
                NacelleError::Timeout("http_max_connection_age"),
            )
        },
        HttpRuntime::<Observer>::drains(before, drain, drained, after) ==> {
            &&& drained.0 <==> drain is TimedOut
            &&& drain matches DrainEvent::TimedOut(left) ==> changes(drained.1@).last() == counted(
                "nacelle.connection_aborts",
                seq![("transport"@, "http"@)],
                left as nat,
            )
        },
{
    if HttpRuntime::<Observer>::drains(before, drain, drained, after) {
        if let DrainEvent::TimedOut(left) = drain {
            let aborts = counted("nacelle.connection_aborts", transport_label(http()), left as nat);
            let first = stage_changes(NacelleTelemetryEventKind::DrainTimedOut);
            assert((first + seq![aborts]).last() == aborts);
            law_transports_show_their_label("http");
            assert(transport_label(http()) =~= seq![("transport"@, "http"@)]);
        }
    }
}

/// Sending a response changes neither its status nor its body.
pub proof fn law_responses_keep_their_status_and_body<Observer>(
    runtime: HttpRuntime<Observer>,
    response: HttpResponse,
    sent: HttpResponse,
    name: Seq<u8>,
)
    requires
        call_ensures(HttpRuntime::<Observer>::response_to_http, (&runtime, response), sent),
    ensures
        sent.status == response.status,
        sent.body == response.body,
        first_value(header_fields(sent.headers), name) == match first_value(
            header_fields(response.headers),
            name,
        ) {
            Some(value) => Some(value),
            None => first_value(runtime.http_policy@.security_headers, name),
        },
{
    law_only_missing_headers_are_added(
        header_fields(response.headers),
        runtime.http_policy@.security_headers,
        name,
    );
}

/// A server keeps a table of rates exactly if its policy limits the rate of
/// requests, with room for as many peers as the policy says; it starts out empty.
pub proof fn law_rates_are_kept_on_demand(policy: NacelleHttpPolicy, shared: LocalHttpSharedState)
    requires
        call_ensures(LocalHttpSharedState::for_policy, (&policy,), shared),
    ensures
        shared@ is Some <==> policy@.max_requests_per_peer_per_second is Some,
        shared@ matches Some(table) ==> {
            &&& table.active == 0
            &&& policy@.peer_rate_limit_table_capacity > 0 ==> table.capacity
                == policy@.peer_rate_limit_table_capacity
            &&& forall|i: int| 0 <= i < table.slots.len() ==> (#[trigger] table.slots[i]).status
                == 0
        },
{
}

/// A text is answered with its own bytes.
pub proof fn law_texts_are_answered_in_their_bytes<Observer>(
    runtime: HttpRuntime<Observer>,
    status: u16,
    body: String,
    sent: HttpResponse,
)
    requires
        call_ensures(HttpRuntime::<Observer>::text_response, (&runtime, status, body), sent),
    ensures
        sent.status == status,
        sent.body@.remaining == encode_utf8(body@).len(),
        encode_utf8(body@).len() > 0 ==> sent.body@.chunks == BodyChunks::Single(
            Some(encode_utf8(body@)),
        ),
        sent.body@.held is None,
{
}

/// Listeners that share a table of rates keep it: preparing for a further policy makes
/// one only where there is none and the policy limits rates.
pub proof fn law_shared_rates_are_kept(
    before: LocalHttpSharedState,
    rules: PolicyRules,
    after: LocalHttpSharedState,
)
    requires
        LocalHttpSharedState::prepares(before, rules, after),
    ensures
        before@ is Some ==> after@ == before@ && after.origin() == before.origin(),
        rules.max_requests_per_peer_per_second is None ==> after@ == before@,
        before@ is None && rules.max_requests_per_peer_per_second is Some ==> after@ is Some
            && after@->0.active == 0,
{
}

} // verus!

//! What is counted and timed of connections and requests.
use vstd::prelude::*;

use super::context::{known_phase, status_label, NacelleMetricsContext};
use super::event::{
    reason_of, NacelleInMemoryObserver, NacelleInMemoryTelemetrySink, NacelleTelemetryEvent,
    NacelleTelemetryEventKind, NacelleTelemetrySink,
};
use super::metric::{change_if, changes, counted, moved, timed, MetricChange, MetricUpdate};
use super::recorder::{
    accepted_changes, closed_changes, completed_changes, failed_changes, finished_changes, started_changes,
    transport_label, NacelleRequestMetricsConfig, NacelleTelemetry,
};
use super::tcp;
use super::tcp::{
    tcp_accepted_changes, tcp_closed_changes, tcp_finished_changes, tcp_started_changes,
    NacelleTcpMetricsContext, NacelleTelemetryConfig,
};
use crate::error::NacelleError;
use crate::text::decimal;
use crate::time::Duration;
use crate::transport::NacelleTransport;

verus! {

/// How far changes raise the counter called `name`, under whatever labels.
pub open spec fn counter_rises(changes: Seq<MetricChange>, name: Seq<char>) -> nat
    decreases changes.len(),
{
    if changes.len() == 0 {
        0
    } else {
        counter_rises(changes.drop_last(), name) + match changes.last() {
            MetricChange::Counted { name: own, increment, .. } => if own == name {
                increment
            } else {
                0
            },
            _ => 0,
        }
    }
}

/// The spans that changes time, in their order.
pub open spec fn timings(changes: Seq<MetricChange>) -> Seq<nat>
    decreases changes.len(),
{
    if changes.len() == 0 {
        Seq::empty()
    } else {
        timings(changes.drop_last()) + match changes.last() {
            MetricChange::Timed { elapsed, .. } => seq![elapsed],
            _ => Seq::empty(),
        }
    }
}

/// What changes that follow each other count and time adds up.
proof fn lemma_follow(first: Seq<MetricChange>, second: Seq<MetricChange>, name: Seq<char>)
    ensures
        counter_rises(first + second, name) == counter_rises(first, name) + counter_rises(
            second,
            name,
        ),
        timings(first + second) == timings(first) + timings(second),
    decreases second.len(),
{
    if second.len() == 0 {
        assert(first + second =~= first);
        assert(timings(first) + timings(second) =~= timings(first));
    } else {
        lemma_follow(first, second.drop_last(), name);
        assert((first + second).drop_last() =~= first + second.drop_last());
        assert(timings(first + second) =~= timings(first) + timings(second));
    }
}

/// What one change, made on a condition, counts and times.
proof fn lemma_one(condition: bool, change: MetricChange, name: Seq<char>)
    ensures
        counter_rises(change_if(condition, change), name) == match change {
            MetricChange::Counted { name: own, increment, .. } => if condition && own == name {
                increment
            } else {
                0
            },
            _ => 0,
        },
        timings(change_if(condition, change)) == match change {
            MetricChange::Timed { elapsed, .. } => if condition {
                seq![elapsed]
            } else {
                Seq::empty()
            },
            _ => Seq::empty(),
        },
{
    reveal_with_fuel(counter_rises, 2);
    reveal_with_fuel(timings, 2);
    assert(seq![change].drop_last() =~= Seq::empty());
    if condition && change is Timed {
        assert(Seq::<nat>::empty() + seq![change->Timed_elapsed] =~= seq![change->Timed_elapsed]);
    }
    if condition && !(change is Timed) {
        assert(Seq::<nat>::empty() + Seq::<nat>::empty() =~= Seq::<nat>::empty());
    }
}

/// The names of counters are told apart.
proof fn lemma_names()
    ensures
        "nacelle.requests.completed"@ != "nacelle.request.bytes"@,
        "nacelle.requests.completed"@ != "nacelle.response.bytes"@,
        "nacelle.request.bytes"@ != "nacelle.response.bytes"@,
        "nacelle.requests.failed"@ != "nacelle.requests.completed"@,
        "nacelle.tcp.requests.completed"@ != "nacelle.tcp.request.bytes"@,
        "nacelle.tcp.requests.completed"@ != "nacelle.tcp.response.bytes"@,
        "nacelle.tcp.request.bytes"@ != "nacelle.tcp.response.bytes"@,
{
    reveal_strlit("nacelle.requests.completed");
    reveal_strlit("nacelle.request.bytes");
    reveal_strlit("nacelle.response.bytes");
    reveal_strlit("nacelle.requests.failed");
    reveal_strlit("nacelle.tcp.requests.completed");
    reveal_strlit("nacelle.tcp.request.bytes");
    reveal_strlit("nacelle.tcp.response.bytes");
    assert("nacelle.requests.completed"@.len() == 26);
    assert("nacelle.request.bytes"@.len() == 21);
    assert("nacelle.response.bytes"@.len() == 22);
    assert("nacelle.requests.failed"@.len() == 23);
    assert("nacelle.tcp.requests.completed"@.len() == 30);
    assert("nacelle.tcp.request.bytes"@.len() == 25);
    assert("nacelle.tcp.response.bytes"@.len() == 26);
}

/// The labels of the changes that a completed or finished request makes do not
/// matter for what is counted and timed.
proof fn lemma_outcome(
    config: NacelleRequestMetricsConfig,
    labels: Seq<(Seq<char>, Seq<char>)>,
    request_bytes: nat,
    response_bytes: nat,
    elapsed: nat,
    name: Seq<char>,
)
    ensures
        ({
            let changes = change_if(
                config.completed,
                counted("nacelle.requests.completed", labels, 1),
            ) + change_if(
                config.duration_ms,
                timed("nacelle.request.duration_ms", labels, elapsed),
            ) + change_if(
                config.byte_counts && request_bytes != 0,
                counted("nacelle.request.bytes", labels, request_bytes),
            ) + change_if(
                config.byte_counts && response_bytes != 0,
                counted("nacelle.response.bytes", labels, response_bytes),
            );
            &&& name == "nacelle.requests.completed"@ ==> counter_rises(changes, name)
                == if config.completed {
                1nat
            } else {
                0
            }
            &&& name == "nacelle.request.bytes"@ ==> counter_rises(changes, name)
                == if config.byte_counts {
                request_bytes
            } else {
                0
            }
            &&& name == "nacelle.response.bytes"@ ==> counter_rises(changes, name)
                == if config.byte_counts {
                response_bytes
            } else {
                0
            }
            &&& timings(changes) == if config.duration_ms {
                seq![elapsed]
            } else {
                Seq::empty()
            }
        }),
{
    lemma_names();
    let completed = counted("nacelle.requests.completed", labels, 1);
    let duration = timed("nacelle.request.duration_ms", labels, elapsed);
    let received = counted("nacelle.request.bytes", labels, request_bytes);
    let sent = counted("nacelle.response.bytes", labels, response_bytes);
    let a = change_if(config.completed, completed);
    let b = change_if(config.duration_ms, duration);
    let c = change_if(config.byte_counts && request_bytes != 0, received);
    let d = change_if(config.byte_counts && response_bytes != 0, sent);
    lemma_one(config.completed, completed, name);
    lemma_one(config.duration_ms, duration, name);
    lemma_one(config.byte_counts && request_bytes != 0, received, name);
    lemma_one(config.byte_counts && response_bytes != 0, sent, name);
    lemma_follow(a, b, name);
    lemma_follow(a + b, c, name);
    lemma_follow(a + b + c, d, name);
    let spans = if config.duration_ms {
        seq![elapsed]
    } else {
        Seq::empty()
    };
    assert(timings(a + b + c + d) =~= spans);
}

/// A completed request counts once, with exactly its bytes in either direction,
/// and its time is taken exactly once, each where that is switched on. A failed one
/// always counts once as failed.
pub proof fn law_requests_are_counted_once(
    config: NacelleRequestMetricsConfig,
    transport: NacelleTransport,
    request_bytes: nat,
    response_bytes: nat,
    elapsed: nat,
)
    ensures
        ({
            let changes = completed_changes(
                config,
                transport,
                request_bytes,
                response_bytes,
                elapsed,
            );
            let failed = failed_changes(config, transport, elapsed);
            &&& counter_rises(changes, "nacelle.requests.completed"@) == if config.completed {
                1nat
            } else {
                0
            }
            &&& counter_rises(changes, "nacelle.request.bytes"@) == if config.byte_counts {
                request_bytes
            } else {
                0
            }
            &&& counter_rises(changes, "nacelle.response.bytes"@) == if config.byte_counts {
                response_bytes
            } else {
                0
            }
            &&& timings(changes) == if config.duration_ms {
                seq![elapsed]
            } else {
                Seq::empty()
            }
            &&& counter_rises(failed, "nacelle.requests.failed"@) == 1
            &&& counter_rises(failed, "nacelle.requests.completed"@) == 0
            &&& timings(failed) == if config.duration_ms {
                seq![elapsed]
            } else {
                Seq::empty()
            }
        }),
{
    let labels = seq![("transport"@, transport@), ("status"@, "ok"@)];
    lemma_outcome(
        config,
        labels,
        request_bytes,
        response_bytes,
        elapsed,
        "nacelle.requests.completed"@,
    );
    lemma_outcome(
        config,
        labels,
        request_bytes,
        response_bytes,
        elapsed,
        "nacelle.request.bytes"@,
    );
    lemma_outcome(
        config,
        labels,
        request_bytes,
        response_bytes,
        elapsed,
        "nacelle.response.bytes"@,
    );
    lemma_names();
    let failure = counted("nacelle.requests.failed", seq![("transport"@, transport@)], 1);
    let duration = timed(
        "nacelle.request.duration_ms",
        seq![("transport"@, transport@), ("status"@, "error"@)],
        elapsed,
    );
    let first = change_if(true, failure);
    let second = change_if(config.duration_ms, duration);
    lemma_one(true, failure, "nacelle.requests.failed"@);
    lemma_one(true, failure, "nacelle.requests.completed"@);
    lemma_one(config.duration_ms, duration, "nacelle.requests.failed"@);
    lemma_one(config.duration_ms, duration, "nacelle.requests.completed"@);
    lemma_follow(first, second, "nacelle.requests.failed"@);
    lemma_follow(first, second, "nacelle.requests.completed"@);
    assert(timings(first) + timings(second) =~= timings(second));
}

/// A finished request of a listener counts once, with exactly its bytes in either
/// direction, and its time is taken exactly once, each where that is switched on.
pub proof fn law_finished_requests_are_counted_once(
    config: NacelleRequestMetricsConfig,
    context: NacelleMetricsContext,
    status: Seq<char>,
    request_bytes: nat,
    response_bytes: nat,
    elapsed: nat,
)
    ensures
        ({
            let changes = finished_changes(
                config,
                context,
                status,
                request_bytes,
                response_bytes,
                elapsed,
            );
            &&& counter_rises(changes, "nacelle.requests.completed"@) == if config.completed {
                1nat
            } else {
                0
            }
            &&& counter_rises(changes, "nacelle.request.bytes"@) == if config.byte_counts {
                request_bytes
            } else {
                0
            }
            &&& counter_rises(changes, "nacelle.response.bytes"@) == if config.byte_counts {
                response_bytes
            } else {
                0
            }
            &&& timings(changes) == if config.duration_ms {
                seq![elapsed]
            } else {
                Seq::empty()
            }
        }),
{
    let labels = context.outcome_labels(status);
    let down = moved("nacelle.requests.in_flight", context.request_labels(), false);
    let counts = change_if(
        config.completed,
        counted("nacelle.requests.completed", labels, 1),
    ) + change_if(config.duration_ms, timed("nacelle.request.duration_ms", labels, elapsed))
        + change_if(
        config.byte_counts && request_bytes != 0,
        counted("nacelle.request.bytes", labels, request_bytes),
    ) + change_if(
        config.byte_counts && response_bytes != 0,
        counted("nacelle.response.bytes", labels, response_bytes),
    );
    let last = change_if(config.in_flight, down);
    let name = "nacelle.requests.completed"@;
    lemma_outcome(config, labels, request_bytes, response_bytes, elapsed, name);
    lemma_one(config.in_flight, down, name);
    lemma_follow(counts, last, name);
    let name = "nacelle.request.bytes"@;
    lemma_outcome(config, labels, request_bytes, response_bytes, elapsed, name);
    lemma_one(config.in_flight, down, name);
    lemma_follow(counts, last, name);
    let name = "nacelle.response.bytes"@;
    lemma_outcome(config, labels, request_bytes, response_bytes, elapsed, name);
    lemma_one(config.in_flight, down, name);
    lemma_follow(counts, last, name);
    assert(timings(counts) + timings(last) =~= timings(counts));
}

/// Every connection counts once when it is accepted and once when it is closed,
/// and a request once when it is started, where that is switched on.
pub proof fn law_connections_are_counted_once(
    config: NacelleRequestMetricsConfig,
    context: NacelleMetricsContext,
    close_reason: Seq<char>,
)
    ensures
        counter_rises(accepted_changes(context), "nacelle.connections.accepted"@) == 1,
        counter_rises(closed_changes(context, close_reason), "nacelle.connections.closed"@) == 1,
        counter_rises(started_changes(config, context), "nacelle.requests.started"@)
            == if config.started {
            1nat
        } else {
            0
        },
{
    let accepted = accepted_changes(context);
    let closed = closed_changes(context, close_reason);
    lemma_pair(accepted[0], accepted[1], "nacelle.connections.accepted"@);
    lemma_pair(closed[0], closed[1], "nacelle.connections.closed"@);
    assert(accepted =~= seq![accepted[0], accepted[1]]);
    assert(closed =~= seq![closed[0], closed[1]]);
    let labels = context.request_labels();
    let name = "nacelle.requests.started"@;
    let started = counted("nacelle.requests.started", labels, 1);
    let up = moved("nacelle.requests.in_flight", labels, true);
    lemma_one(config.started, started, name);
    lemma_one(config.in_flight, up, name);
    lemma_follow(change_if(config.started, started), change_if(config.in_flight, up), name);
}

/// What two changes count and time.
proof fn lemma_pair(first: MetricChange, second: MetricChange, name: Seq<char>)
    ensures
        counter_rises(seq![first, second], name) == counter_rises(seq![first], name)
            + counter_rises(seq![second], name),
        timings(seq![first, second]) == timings(seq![first]) + timings(seq![second]),
        counter_rises(seq![first], name) == counter_rises(change_if(true, first), name),
        counter_rises(seq![first], name) == match first {
            MetricChange::Counted { name: own, increment, .. } => if own == name {
                increment
            } else {
                0
            },
            _ => 0,
        },
        counter_rises(seq![second], name) == match second {
            MetricChange::Counted { name: own, increment, .. } => if own == name {
                increment
            } else {
                0
            },
            _ => 0,
        },
        timings(seq![first]) == timings(change_if(true, first)),
        timings(seq![second]) == timings(change_if(true, second)),
{
    assert(seq![first, second] =~= seq![first] + seq![second]);
    lemma_follow(seq![first], seq![second], name);
    lemma_one(true, first, name);
    lemma_one(true, second, name);
}

/// While metrics of TCP are switched on, every connection and every request counts
/// once at its start and once at its end, with exactly its bytes in either
/// direction and its time taken once; while they are off, nothing counts.
pub proof fn law_tcp_requests_are_counted_once(
    config: NacelleTelemetryConfig,
    context: NacelleTcpMetricsContext,
    close_reason: Seq<char>,
    status: Seq<char>,
    request_bytes: nat,
    response_bytes: nat,
    elapsed: nat,
)
    ensures
        ({
            let once = if config.tcp_metrics {
                1nat
            } else {
                0
            };
            let changes = tcp_finished_changes(
                config,
                context,
                status,
                request_bytes,
                response_bytes,
                elapsed,
            );
            &&& counter_rises(
                tcp_accepted_changes(config, context),
                "nacelle.tcp.connections.accepted"@,
            ) == once
            &&& counter_rises(
                tcp_closed_changes(config, context, close_reason),
                "nacelle.tcp.connections.closed"@,
            ) == once
            &&& counter_rises(
                tcp_started_changes(config, context),
                "nacelle.tcp.requests.started"@,
            ) == once
            &&& counter_rises(changes, "nacelle.tcp.requests.completed"@) == once
            &&& counter_rises(changes, "nacelle.tcp.request.bytes"@) == if config.tcp_metrics {
                request_bytes
            } else {
                0
            }
            &&& counter_rises(changes, "nacelle.tcp.response.bytes"@) == if config.tcp_metrics {
                response_bytes
            } else {
                0
            }
            &&& timings(changes) == if config.tcp_metrics {
                seq![elapsed]
            } else {
                Seq::empty()
            }
        }),
{
    if config.tcp_metrics {
        let accepted = tcp_accepted_changes(config, context);
        let closed = tcp_closed_changes(config, context, close_reason);
        let started = tcp_started_changes(config, context);
        assert(accepted =~= seq![accepted[0], accepted[1]]);
        assert(closed =~= seq![closed[0], closed[1]]);
        assert(started =~= seq![started[0], started[1]]);
        lemma_pair(accepted[0], accepted[1], "nacelle.tcp.connections.accepted"@);
        lemma_pair(closed[0], closed[1], "nacelle.tcp.connections.closed"@);
        lemma_pair(started[0], started[1], "nacelle.tcp.requests.started"@);
        lemma_tcp_outcome(
            config,
            context,
            status,
            request_bytes,
            response_bytes,
            elapsed,
            "nacelle.tcp.requests.completed"@,
        );
        lemma_tcp_outcome(
            config,
            context,
            status,
            request_bytes,
            response_bytes,
            elapsed,
            "nacelle.tcp.request.bytes"@,
        );
        lemma_tcp_outcome(
            config,
            context,
            status,
            request_bytes,
            response_bytes,
            elapsed,
            "nacelle.tcp.response.bytes"@,
        );
    }
}

/// What a finished TCP request counts and times.
proof fn lemma_tcp_outcome(
    config: NacelleTelemetryConfig,
    context: NacelleTcpMetricsContext,
    status: Seq<char>,
    request_bytes: nat,
    response_bytes: nat,
    elapsed: nat,
    name: Seq<char>,
)
    requires
        config.tcp_metrics,
    ensures
        ({
            let changes = tcp_finished_changes(
                config,
                context,
                status,
                request_bytes,
                response_bytes,
                elapsed,
            );
            &&& name == "nacelle.tcp.requests.completed"@ ==> counter_rises(changes, name) == 1
            &&& name == "nacelle.tcp.request.bytes"@ ==> counter_rises(changes, name)
                == request_bytes
            &&& name == "nacelle.tcp.response.bytes"@ ==> counter_rises(changes, name)
                == response_bytes
            &&& timings(changes) == seq![elapsed]
        }),
{
    lemma_names();
    let shared = context.request_labels(config.tcp_opcode_labels);
    let labels = shared.push(("status"@, status));
    let completed = counted("nacelle.tcp.requests.completed", labels, 1);
    let duration = timed("nacelle.tcp.request.duration_ms", labels, elapsed);
    let received = counted("nacelle.tcp.request.bytes", labels, request_bytes);
    let sent = counted("nacelle.tcp.response.bytes", labels, response_bytes);
    let down = moved("nacelle.tcp.requests.in_flight", shared, false);
    let a = seq![completed, duration];
    let b = change_if(request_bytes != 0, received);
    let c = change_if(response_bytes != 0, sent);
    let d = seq![down];
    lemma_pair(completed, duration, name);
    lemma_one(true, duration, name);
    lemma_one(true, completed, name);
    lemma_one(request_bytes != 0, received, name);
    lemma_one(response_bytes != 0, sent, name);
    lemma_one(true, down, name);
    assert(change_if(true, down) =~= d);
    lemma_follow(a, b, name);
    lemma_follow(a + b, c, name);
    lemma_follow(a + b + c, d, name);
    assert(timings(a + b + c + d) =~= seq![elapsed]);
}

/// The metrics of a listener name it, its transport and whether it is encrypted,
/// those of a request its protocol too, and those of a finished one whether it
/// failed. A TCP request names its opcode, in decimal, only on demand.
pub proof fn law_labels_name_their_listener(
    context: NacelleMetricsContext,
    status: Seq<char>,
    tcp: NacelleTcpMetricsContext,
    include_opcode: bool,
)
    ensures
        context.connection_labels().len() == 3,
        context.connection_labels().contains(("listener"@, context.listener@)),
        context.connection_labels().contains(("transport"@, context.transport@)),
        context.connection_labels().contains(("tls"@, context.tls@)),
        context.request_labels().take(3) == context.connection_labels(),
        context.request_labels()[3] == ("protocol"@, context.protocol@),
        context.outcome_labels(status).take(4) == context.request_labels(),
        context.outcome_labels(status)[4].1 == "error"@ <==> status == "error"@,
        context.outcome_labels(status)[4].1 == "ok"@ <==> status != "error"@,
        tcp.connection_labels().contains(("listener"@, tcp.listener@)),
        tcp.connection_labels().contains(("transport"@, tcp.transport@)),
        tcp.connection_labels().contains(("tls"@, tcp.tls@)),
        tcp.request_labels(include_opcode).take(3) == tcp.connection_labels(),
        tcp.request_labels(include_opcode)[3] == ("protocol"@, tcp.protocol@),
        tcp.request_labels(include_opcode).len() == if include_opcode && tcp.opcode is Some {
            5int
        } else {
            4
        },
        include_opcode && tcp.opcode is Some ==> tcp.request_labels(include_opcode)[4] == (
            "opcode"@,
            decimal(tcp.opcode->0 as nat),
        ),
{
    reveal_strlit("error");
    reveal_strlit("ok");
    let labels = context.connection_labels();
    assert(labels[0] == ("listener"@, context.listener@));
    assert(labels[1] == ("transport"@, context.transport@));
    assert(labels[2] == ("tls"@, context.tls@));
    assert(context.request_labels().take(3) =~= labels);
    assert(context.outcome_labels(status).take(4) =~= context.request_labels());
    let own = tcp.connection_labels();
    assert(own[0] == ("listener"@, tcp.listener@));
    assert(own[1] == ("transport"@, tcp.transport@));
    assert(own[2] == ("tls"@, tcp.tls@));
    assert(tcp.request_labels(include_opcode).take(3) =~= own);
    assert(context.outcome_labels(status)[4].1 == status_label(status));
}

/// Whether `after` is `before` with one more event at its end, made of these parts.
pub open spec fn adds_event(
    before: Seq<NacelleTelemetryEvent>,
    after: Seq<NacelleTelemetryEvent>,
    kind: NacelleTelemetryEventKind,
    transport: Option<NacelleTransport>,
    reason: Option<&'static str>,
    count: nat,
) -> bool {
    &&& after.len() == before.len() + 1
    &&& forall|i: int| 0 <= i < before.len() ==> #[trigger] after[i] == before[i]
    &&& after.last().kind == kind
    &&& after.last().transport == transport
    &&& after.last().reason == reason
    &&& after.last().count == count
}

/// What a single update counts.
proof fn lemma_single(updates: Seq<MetricUpdate>)
    requires
        updates.len() == 1,
    ensures
        forall|name: Seq<char>| #[trigger]
            counter_rises(changes(updates), name) == match changes(updates)[0] {
                MetricChange::Counted { name: own, increment, .. } => if own == name {
                    increment
                } else {
                    0
                },
                _ => 0,
            },
{
    assert forall|name: Seq<char>| #[trigger]
        counter_rises(changes(updates), name) == match changes(updates)[0] {
            MetricChange::Counted { name: own, increment, .. } => if own == name {
                increment
            } else {
                0
            },
            _ => 0,
        } by {
        let change = changes(updates)[0];
        assert(changes(updates) =~= change_if(true, change));
        lemma_one(true, change, name);
    }
}

/// An observer that keeps events keeps every one behind those before it, with its
/// kind, its transport, its reason and its count; what goes with it is counted once,
/// or as often as it says.
pub proof fn law_observers_keep_what_happened(
    before: NacelleTelemetry<NacelleInMemoryObserver>,
    transport: NacelleTransport,
    reason: &'static str,
    error: NacelleError,
    kind: NacelleTelemetryEventKind,
    count: usize,
    updates: Vec<MetricUpdate>,
    after: NacelleTelemetry<NacelleInMemoryObserver>,
)
    ensures
        NacelleTelemetry::<NacelleInMemoryObserver>::tells_listener_configured(
            before,
            transport,
            after,
        ) ==> adds_event(
            before.observed_by()@,
            after.observed_by()@,
            NacelleTelemetryEventKind::ListenerConfigured,
            Some(transport),
            None,
            1,
        ),
        NacelleTelemetry::<NacelleInMemoryObserver>::tells_listener_failed(
            before,
            transport,
            error,
            after,
        ) ==> adds_event(
            before.observed_by()@,
            after.observed_by()@,
            NacelleTelemetryEventKind::ListenerFailed,
            Some(transport),
            reason_of(error),
            1,
        ),
        NacelleTelemetry::<NacelleInMemoryObserver>::tells_connection_opened(
            before,
            transport,
            updates,
            after,
        ) ==> adds_event(
            before.observed_by()@,
            after.observed_by()@,
            NacelleTelemetryEventKind::ConnectionOpened,
            Some(transport),
            None,
            1,
        ) && counter_rises(changes(updates@), "nacelle.connections.opened"@) == 1 && updates@.len()
            == 1,
        NacelleTelemetry::<NacelleInMemoryObserver>::tells_connection_rejected(
            before,
            transport,
            reason,
            updates,
            after,
        ) ==> adds_event(
            before.observed_by()@,
            after.observed_by()@,
            NacelleTelemetryEventKind::ConnectionRejected,
            Some(transport),
            Some(reason),
            1,
        ) && counter_rises(changes(updates@), "nacelle.rejections"@) == 1 && updates@.len() == 1,
        NacelleTelemetry::<NacelleInMemoryObserver>::tells_request_rejected(
            before,
            transport,
            reason,
            updates,
            after,
        ) ==> adds_event(
            before.observed_by()@,
            after.observed_by()@,
            NacelleTelemetryEventKind::RequestRejected,
            Some(transport),
            Some(reason),
            1,
        ) && counter_rises(changes(updates@), "nacelle.rejections"@) == 1 && updates@.len() == 1,
        NacelleTelemetry::<NacelleInMemoryObserver>::tells_timeout(
            before,
            transport,
            reason,
            updates,
            after,
        ) ==> adds_event(
            before.observed_by()@,
            after.observed_by()@,
            NacelleTelemetryEventKind::Timeout,
            Some(transport),
            Some(reason),
            1,
        ) && counter_rises(changes(updates@), "nacelle.timeouts"@) == 1 && updates@.len() == 1,
        NacelleTelemetry::<NacelleInMemoryObserver>::tells_shutdown_event(
            before,
            kind,
            transport,
            updates,
            after,
        ) ==> adds_event(
            before.observed_by()@,
            after.observed_by()@,
            kind,
            Some(transport),
            None,
            1,
        ) && counter_rises(changes(updates@), "nacelle.shutdown_events"@) == 1 && updates@.len()
            == 1,
        NacelleTelemetry::<NacelleInMemoryObserver>::tells_shutdown_requested(
            before,
            updates,
            after,
        ) ==> adds_event(
            before.observed_by()@,
            after.observed_by()@,
            NacelleTelemetryEventKind::ShutdownRequested,
            None,
            None,
            1,
        ) && counter_rises(changes(updates@), "nacelle.shutdown_events"@) == 1 && updates@.len()
            == 1,
        NacelleTelemetry::<NacelleInMemoryObserver>::tells_connections_aborted(
            before,
            transport,
            count,
            updates,
            after,
        ) ==> adds_event(
            before.observed_by()@,
            after.observed_by()@,
            NacelleTelemetryEventKind::ConnectionsAborted,
            Some(transport),
            None,
            count as nat,
        ) && counter_rises(changes(updates@), "nacelle.connection_aborts"@) == count,
{
    if updates@.len() == 1 {
        lemma_single(updates@);
    }
    assert(changes(updates@).len() == updates@.len());
}

/// A sink that keeps events keeps every one behind those before it, with its kind,
/// its transport, its reason and its count; what goes with it is counted once, or as
/// often as it says.
pub proof fn law_sinks_keep_what_happened(
    before: tcp::NacelleTelemetry<NacelleInMemoryTelemetrySink>,
    transport: NacelleTransport,
    reason: &'static str,
    error: NacelleError,
    kind: NacelleTelemetryEventKind,
    count: usize,
    updates: Vec<MetricUpdate>,
    after: tcp::NacelleTelemetry<NacelleInMemoryTelemetrySink>,
)
    requires
        before.sends_to() is Some,
    ensures
        tcp::NacelleTelemetry::<NacelleInMemoryTelemetrySink>::tells_listener_configured(
            before,
            transport,
            after,
        ) ==> adds_event(
            before.sends_to()->0@,
            after.sends_to()->0@,
            NacelleTelemetryEventKind::ListenerConfigured,
            Some(transport),
            None,
            1,
        ),
        tcp::NacelleTelemetry::<NacelleInMemoryTelemetrySink>::tells_listener_failed(
            before,
            transport,
            error,
            after,
        ) ==> adds_event(
            before.sends_to()->0@,
            after.sends_to()->0@,
            NacelleTelemetryEventKind::ListenerFailed,
            Some(transport),
            reason_of(error),
            1,
        ),
        tcp::NacelleTelemetry::<NacelleInMemoryTelemetrySink>::tells_connection_opened(
            before,
            transport,
            updates,
            after,
        ) ==> adds_event(
            before.sends_to()->0@,
            after.sends_to()->0@,
            NacelleTelemetryEventKind::ConnectionOpened,
            Some(transport),
            None,
            1,
        ) && counter_rises(changes(updates@), "nacelle.connections"@) == 1 && updates@.len() == 1,
        tcp::NacelleTelemetry::<NacelleInMemoryTelemetrySink>::tells_connection_rejected(
            before,
            transport,
            reason,
            updates,
            after,
        ) ==> adds_event(
            before.sends_to()->0@,
            after.sends_to()->0@,
            NacelleTelemetryEventKind::ConnectionRejected,
            Some(transport),
            Some(reason),
            1,
        ) && counter_rises(changes(updates@), "nacelle.rejections"@) == 1 && updates@.len() == 1,
        tcp::NacelleTelemetry::<NacelleInMemoryTelemetrySink>::tells_request_rejected(
            before,
            transport,
            reason,
            updates,
            after,
        ) ==> adds_event(
            before.sends_to()->0@,
            after.sends_to()->0@,
            NacelleTelemetryEventKind::RequestRejected,
            Some(transport),
            Some(reason),
            1,
        ) && counter_rises(changes(updates@), "nacelle.rejections"@) == 1 && updates@.len() == 1,
        tcp::NacelleTelemetry::<NacelleInMemoryTelemetrySink>::tells_timeout(
            before,
            transport,
            reason,
            updates,
            after,
        ) ==> adds_event(
            before.sends_to()->0@,
            after.sends_to()->0@,
            NacelleTelemetryEventKind::Timeout,
            Some(transport),
            Some(reason),
            1,
        ) && counter_rises(changes(updates@), "nacelle.timeouts"@) == 1 && updates@.len() == 1,
        tcp::NacelleTelemetry::<NacelleInMemoryTelemetrySink>::tells_shutdown_event(
            before,
            kind,
            transport,
            updates,
            after,
        ) ==> adds_event(
            before.sends_to()->0@,
            after.sends_to()->0@,
            kind,
            Some(transport),
            None,
            1,
        ) && counter_rises(changes(updates@), "nacelle.shutdown_events"@) == 1 && updates@.len()
            == 1,
        tcp::NacelleTelemetry::<NacelleInMemoryTelemetrySink>::tells_shutdown_requested(
            before,
            updates,
            after,
        ) ==> adds_event(
            before.sends_to()->0@,
            after.sends_to()->0@,
            NacelleTelemetryEventKind::ShutdownRequested,
            None,
            None,
            1,
        ) && counter_rises(changes(updates@), "nacelle.shutdown_events"@) == 1 && updates@.len()
            == 1,
        tcp::NacelleTelemetry::<NacelleInMemoryTelemetrySink>::tells_connections_aborted(
            before,
            transport,
            count,
            updates,
            after,
        ) ==> adds_event(
            before.sends_to()->0@,
            after.sends_to()->0@,
            NacelleTelemetryEventKind::ConnectionsAborted,
            Some(transport),
            None,
            count as nat,
        ) && counter_rises(changes(updates@), "nacelle.connection_aborts"@) == count,
{
    if updates@.len() == 1 {
        lemma_single(updates@);
    }
    assert(changes(updates@).len() == updates@.len());
}

/// Without a sink nothing is kept, and with one it stays in its place.
pub proof fn law_events_go_to_the_sink_alone<Sink: NacelleTelemetrySink>(
    before: tcp::NacelleTelemetry<Sink>,
    event: NacelleTelemetryEvent,
    after: tcp::NacelleTelemetry<Sink>,
)
    requires
        tcp::NacelleTelemetry::<Sink>::told(before, event, after),
    ensures
        after.configured() == before.configured(),
        before.sends_to() is None <==> after.sends_to() is None,
        before.sends_to() matches Some(sink) ==> Sink::takes(sink, event, after.sends_to()->0),
{
}

/// A request that ends is told once with its outcome, whatever is counted of it; the
/// bytes of a response body are told where there are any, and counted where bytes
/// are.
pub proof fn law_outcomes_are_told(
    before: NacelleTelemetry<NacelleInMemoryObserver>,
    transport: NacelleTransport,
    request_bytes: usize,
    response_bytes: usize,
    elapsed: Duration,
    error: NacelleError,
    updates: Vec<MetricUpdate>,
    after: NacelleTelemetry<NacelleInMemoryObserver>,
)
    ensures
        NacelleTelemetry::<NacelleInMemoryObserver>::tells_request_completed(
            before,
            transport,
            request_bytes,
            response_bytes,
            elapsed,
            updates,
            after,
        ) ==> {
            &&& adds_event(
                before.observed_by()@,
                after.observed_by()@,
                NacelleTelemetryEventKind::RequestCompleted,
                Some(transport),
                None,
                1,
            )
            &&& before.configured().request_metrics.byte_counts ==> counter_rises(
                changes(updates@),
                "nacelle.request.bytes"@,
            ) == request_bytes && counter_rises(changes(updates@), "nacelle.response.bytes"@)
                == response_bytes
            &&& before.configured().request_metrics.duration_ms ==> timings(changes(updates@))
                == seq![elapsed@]
        },
        NacelleTelemetry::<NacelleInMemoryObserver>::tells_request_failed(
            before,
            transport,
            elapsed,
            error,
            updates,
            after,
        ) ==> {
            &&& adds_event(
                before.observed_by()@,
                after.observed_by()@,
                NacelleTelemetryEventKind::RequestFailed,
                Some(transport),
                reason_of(error),
                1,
            )
            &&& counter_rises(changes(updates@), "nacelle.requests.failed"@) == 1
        },
        NacelleTelemetry::<NacelleInMemoryObserver>::tells_response_body_bytes(
            before,
            transport,
            response_bytes,
            updates,
            after,
        ) ==> {
            &&& response_bytes == 0 ==> after == before && updates@.len() == 0
            &&& response_bytes > 0 ==> adds_event(
                before.observed_by()@,
                after.observed_by()@,
                NacelleTelemetryEventKind::ResponseBodyBytes,
                Some(transport),
                None,
                response_bytes as nat,
            )
            &&& before.configured().request_metrics.byte_counts ==> counter_rises(
                changes(updates@),
                "nacelle.response.bytes"@,
            ) == response_bytes
        },
{
    let config = before.configured().request_metrics;
    law_requests_are_counted_once(
        config,
        transport,
        request_bytes as nat,
        response_bytes as nat,
        elapsed@,
    );
    assert(changes(updates@).len() == updates@.len());
    lemma_one(
        response_bytes != 0 && config.byte_counts,
        counted("nacelle.response.bytes", transport_label(transport), response_bytes as nat),
        "nacelle.response.bytes"@,
    );
}

/// A finished request is counted once with its bytes and timed once, each where that
/// is switched on; a phase is timed where phases are and it is one that is known.
pub proof fn law_recorders_count_what_they_are_told<Observer>(
    telemetry: NacelleTelemetry<Observer>,
    context: NacelleMetricsContext,
    status: &'static str,
    request_bytes: usize,
    response_bytes: usize,
    elapsed: Duration,
    finished: Vec<MetricUpdate>,
    phase: &'static str,
    known: bool,
    timed_phase: Vec<MetricUpdate>,
)
    requires
        call_ensures(
            NacelleTelemetry::<Observer>::request_finished_with_context,
            (&telemetry, &context, status, request_bytes, response_bytes, elapsed),
            finished,
        ),
        call_ensures(known_phase, (phase,), known),
        call_ensures(
            NacelleTelemetry::<Observer>::phase_duration,
            (&telemetry, &context, phase, elapsed),
            timed_phase,
        ),
    ensures
        ({
            let config = telemetry.configured().request_metrics;
            &&& counter_rises(changes(finished@), "nacelle.requests.completed"@)
                == if config.completed {
                1nat
            } else {
                0
            }
            &&& counter_rises(changes(finished@), "nacelle.request.bytes"@)
                == if config.byte_counts {
                request_bytes as nat
            } else {
                0
            }
            &&& counter_rises(changes(finished@), "nacelle.response.bytes"@)
                == if config.byte_counts {
                response_bytes as nat
            } else {
                0
            }
            &&& timings(changes(finished@)) == if config.duration_ms {
                seq![elapsed@]
            } else {
                Seq::empty()
            }
            &&& timings(changes(timed_phase@)) == if known
                && telemetry.configured().phase_duration_metrics {
                seq![elapsed@]
            } else {
                Seq::empty()
            }
        }),
{
    law_finished_requests_are_counted_once(
        telemetry.configured().request_metrics,
        context,
        status@,
        request_bytes as nat,
        response_bytes as nat,
        elapsed@,
    );
    lemma_one(
        telemetry.configured().phase_duration_metrics && known,
        timed(
            "nacelle.phase.duration_ms",
            context.request_labels().push(("phase"@, phase@)),
            elapsed@,
        ),
        "nacelle.phase.duration_ms"@,
    );
}

/// While metrics of TCP are switched on, a finished request is counted once with its
/// bytes and timed once, the bytes of a body are counted as they are, a phase is
/// timed, and an error is counted once, as is the limit that caused it if one did.
/// While they are off, nothing is.
pub proof fn law_tcp_recorders_count_what_they_are_told<Sink>(
    telemetry: tcp::NacelleTelemetry<Sink>,
    context: NacelleTcpMetricsContext,
    status: &'static str,
    request_bytes: usize,
    response_bytes: usize,
    elapsed: Duration,
    finished: Vec<MetricUpdate>,
    body: Vec<MetricUpdate>,
    phase: &'static str,
    timed_phase: Vec<MetricUpdate>,
    error: NacelleError,
    failed: Vec<MetricUpdate>,
)
    requires
        call_ensures(
            tcp::NacelleTelemetry::<Sink>::tcp_request_completed,
            (&telemetry, &context, status, request_bytes, response_bytes, elapsed),
            finished,
        ),
        call_ensures(
            tcp::NacelleTelemetry::<Sink>::tcp_request_body_bytes,
            (&telemetry, &context, request_bytes),
            body,
        ),
        call_ensures(
            tcp::NacelleTelemetry::<Sink>::tcp_phase_duration,
            (&telemetry, &context, phase, elapsed),
            timed_phase,
        ),
        call_ensures(
            tcp::NacelleTelemetry::<Sink>::tcp_error,
            (&telemetry, &context, phase, &error),
            failed,
        ),
    ensures
        ({
            let on = telemetry.configured().tcp_metrics;
            &&& counter_rises(changes(finished@), "nacelle.tcp.requests.completed"@) == if on {
                1nat
            } else {
                0
            }
            &&& counter_rises(changes(finished@), "nacelle.tcp.request.bytes"@) == if on {
                request_bytes as nat
            } else {
                0
            }
            &&& counter_rises(changes(finished@), "nacelle.tcp.response.bytes"@) == if on {
                response_bytes as nat
            } else {
                0
            }
            &&& timings(changes(finished@)) == if on {
                seq![elapsed@]
            } else {
                Seq::empty()
            }
            &&& counter_rises(changes(body@), "nacelle.tcp.request.body_bytes"@) == if on {
                request_bytes as nat
            } else {
                0
            }
            &&& timings(changes(timed_phase@)) == if on {
                seq![elapsed@]
            } else {
                Seq::empty()
            }
            &&& counter_rises(changes(failed@), "nacelle.tcp.errors"@) == if on {
                1nat
            } else {
                0
            }
            &&& counter_rises(changes(failed@), "nacelle.tcp.resource_limit.rejections"@) == if on
                && error is ResourceLimit {
                1nat
            } else {
                0
            }
        }),
{
    let config = telemetry.configured();
    let labels = context.request_labels(config.tcp_opcode_labels);
    law_tcp_requests_are_counted_once(
        config,
        context,
        ""@,
        status@,
        request_bytes as nat,
        response_bytes as nat,
        elapsed@,
    );
    lemma_one(
        request_bytes != 0 && config.tcp_metrics,
        counted("nacelle.tcp.request.body_bytes", labels, request_bytes as nat),
        "nacelle.tcp.request.body_bytes"@,
    );
    lemma_one(
        config.tcp_metrics,
        timed(
            "nacelle.tcp.phase.duration_ms",
            labels.push(("phase"@, phase@)),
            elapsed@,
        ),
        "nacelle.tcp.phase.duration_ms"@,
    );
    if config.tcp_metrics {
        reveal_strlit("nacelle.tcp.errors");
        reveal_strlit("nacelle.tcp.resource_limit.rejections");
        assert("nacelle.tcp.errors"@.len() == 18);
        assert("nacelle.tcp.resource_limit.rejections"@.len() == 37);
        let made = changes(failed@);
        let limited = error is ResourceLimit;
        let first = change_if(true, made[0]);
        let second = change_if(limited, made[1]);
        assert(made =~= first + second);
        lemma_follow(first, second, "nacelle.tcp.errors"@);
        lemma_follow(first, second, "nacelle.tcp.resource_limit.rejections"@);
        lemma_one(true, made[0], "nacelle.tcp.errors"@);
        lemma_one(true, made[0], "nacelle.tcp.resource_limit.rejections"@);
        lemma_one(limited, made[1], "nacelle.tcp.errors"@);
        lemma_one(limited, made[1], "nacelle.tcp.resource_limit.rejections"@);
    }
}

/// An event names the reason that came with a failure, and otherwise what kind of
/// failure it was; there is always one.
pub proof fn law_failures_have_a_reason(error: NacelleError)
    ensures
        reason_of(error) is Some,
        error matches NacelleError::ResourceLimit(reason) ==> reason_of(error) == Some(reason),
        error matches NacelleError::Timeout(reason) ==> reason_of(error) == Some(reason),
        error matches NacelleError::InvalidFrame(reason) ==> reason_of(error) == Some(reason),
{
}

} // verus!

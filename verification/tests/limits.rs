use std::collections::HashMap;

use nacelle::address::IpAddr;
use nacelle::error::NacelleError;
use nacelle::gauges::{memory_updates, permit_update};
use nacelle::limits::{NacelleLimits, NacelleRuntimeState, PermitKind};
use nacelle::memory::{
    MemoryEvent, MemoryRequest, MemoryTicket, MemoryWait, NacelleMemoryAllocation, NacelleMemoryBudget,
};
use nacelle::peer_rate::DEFAULT_PEER_RATE_LIMIT_TABLE_CAPACITY;
use nacelle::telemetry::MetricUpdate;
use nacelle::time::Duration;

const LOCALHOST: IpAddr = IpAddr::V4(0x7f00_0001);
const NEIGHBOUR: IpAddr = IpAddr::V4(0x7f00_0002);

fn bounded(max_bytes: usize) -> NacelleRuntimeState {
    NacelleRuntimeState::new(NacelleLimits::default().with_max_memory_bytes(max_bytes))
}

fn queued(budget: &mut NacelleMemoryBudget, bytes: usize) -> MemoryTicket {
    match budget.request(bytes) {
        MemoryRequest::Waiting(ticket) => ticket,
        other => panic!("expected to wait, got {other:?}"),
    }
}

fn granted(budget: &mut NacelleMemoryBudget, ticket: MemoryTicket) -> NacelleMemoryAllocation {
    match budget.wait_for_memory_allocation(ticket, MemoryEvent::Notified) {
        MemoryWait::Granted(allocation) => allocation,
        other => panic!("expected a grant, got {other:?}"),
    }
}

fn still_waiting(budget: &mut NacelleMemoryBudget, ticket: MemoryTicket) -> MemoryTicket {
    match budget.wait_for_memory_allocation(ticket, MemoryEvent::Notified) {
        MemoryWait::Waiting(ticket) => ticket,
        other => panic!("expected to go on waiting, got {other:?}"),
    }
}

#[test]
fn memory_allocation_can_release_part_of_its_guard() {
    let mut state = bounded(16);
    let mut allocation = state.allocate_memory(12).expect("allocation should fit");

    assert!(state.memory_budget().shrink_to(&mut allocation, 5).is_empty());

    assert_eq!(allocation.bytes(), 5);
    assert_eq!(state.memory_used_bytes(), 5);
    assert!(state.memory_budget().release(allocation).is_empty());
    assert_eq!(state.memory_used_bytes(), 0);
}

#[test]
fn shrinking_memory_allocation_grants_waiting_budget() {
    let mut state = bounded(10);
    let mut held = state.allocate_memory(10).expect("full allocation should fit");
    let waiter = queued(state.memory_budget(), 4);

    let wake = state.memory_budget().shrink_to(&mut held, 6);

    assert_eq!(wake, vec![waiter.id()]);
    let grant = granted(state.memory_budget(), waiter);
    assert_eq!(state.memory_used_bytes(), 10);
    state.memory_budget().release(grant);
    state.memory_budget().release(held);
    assert_eq!(state.memory_used_bytes(), 0);
}

#[test]
fn default_limits_keep_memory_limiting_opt_in() {
    let limits = NacelleLimits::default();

    assert_ne!(limits.max_connections, usize::MAX);
    assert_ne!(limits.max_in_flight_requests, usize::MAX);
    assert_ne!(limits.max_streaming_tasks, usize::MAX);
    assert_eq!(limits.max_memory_bytes, usize::MAX);
    assert!(limits.max_connection_opens_per_peer_per_second.is_none());
    assert_eq!(
        limits.connection_rate_limit_table_capacity,
        DEFAULT_PEER_RATE_LIMIT_TABLE_CAPACITY
    );
    assert_eq!(
        limits.memory_allocation_timeout,
        Some(Duration::from_secs(5))
    );
    assert!(limits.handler_timeout.is_some());
}

#[test]
fn runtime_state_reports_active_permits_and_memory() {
    let mut state = NacelleRuntimeState::new(
        NacelleLimits::default()
            .with_max_connections(1)
            .with_max_in_flight_requests(1)
            .with_max_streaming_tasks(1)
            .with_max_memory_bytes(1024),
    );

    let connection = state
        .acquire_connection_tracked()
        .expect("connection permit");
    let request = state.acquire_request_tracked().expect("request permit");
    let streaming = state
        .acquire_streaming_task_tracked()
        .expect("streaming permit");
    let memory = state.allocate_memory(512).expect("memory allocation");
    assert_eq!(memory.bytes(), 512);

    assert_eq!(state.active_connections(), 1);
    assert_eq!(state.active_requests(), 1);
    assert_eq!(state.active_streaming_tasks(), 1);
    assert_eq!(state.memory_used_bytes(), 512);

    state.release(connection);
    state.release(request);
    state.release(streaming);
    state.memory_budget().release(memory);

    assert_eq!(state.active_connections(), 0);
    assert_eq!(state.active_requests(), 0);
    assert_eq!(state.active_streaming_tasks(), 0);
    assert_eq!(state.memory_used_bytes(), 0);
}

#[test]
fn disabled_memory_budget_returns_empty_allocation_without_accounting() {
    let mut state = NacelleRuntimeState::default();

    let allocation = state
        .memory_budget()
        .try_allocate(usize::MAX)
        .expect("disabled memory budget should allow empty allocation");

    assert_eq!(allocation.bytes(), 0);
    assert_eq!(state.memory_used_bytes(), 0);
    state.memory_budget().release(allocation);
    assert_eq!(state.memory_used_bytes(), 0);
}

#[test]
fn bounded_counters_reject_at_limit_and_recover_after_drop() {
    let mut state =
        NacelleRuntimeState::new(NacelleLimits::default().with_max_in_flight_requests(1));

    let request = state.acquire_request_tracked().expect("first request");
    assert!(matches!(
        state.acquire_request_tracked(),
        Err(NacelleError::ResourceLimit("in_flight_requests"))
    ));

    state.release(request);
    let _request = state
        .acquire_request_tracked()
        .expect("request permit should recover after drop");
    assert_eq!(state.active_requests(), 1);
}

#[test]
fn partitioned_states_reject_mismatched_hard_memory_limits() {
    let result = NacelleRuntimeState::partitioned(vec![
        NacelleLimits::default().with_max_memory_bytes(10),
        NacelleLimits::default().with_max_memory_bytes(20),
    ]);

    assert!(matches!(
        result,
        Err(NacelleError::ResourceLimit("memory_limit_mismatch"))
    ));
}

#[test]
fn memory_budget_rejects_concurrent_allocations_without_oversubscription() {
    const MEMORY_LIMIT: usize = 1024;
    const ALLOCATION_BYTES: usize = 128;
    const WORKERS: usize = 16;

    let mut state = bounded(MEMORY_LIMIT);
    let accepted: Vec<NacelleMemoryAllocation> = (0..WORKERS)
        .filter_map(|_| state.allocate_memory(ALLOCATION_BYTES).ok())
        .collect();

    assert_eq!(accepted.len(), MEMORY_LIMIT / ALLOCATION_BYTES);
    assert_eq!(state.memory_used_bytes(), MEMORY_LIMIT);
    assert_eq!(state.memory_budget().available_bytes(), 0);
    assert!(matches!(
        state.allocate_memory(1),
        Err(NacelleError::ResourceLimit("memory_bytes"))
    ));

    for allocation in accepted {
        state.memory_budget().release(allocation);
    }
    assert_eq!(state.memory_used_bytes(), 0);
    let allocation = state
        .allocate_memory(MEMORY_LIMIT)
        .expect("full memory budget should be reusable after release");
    assert_eq!(state.memory_used_bytes(), MEMORY_LIMIT);
    state.memory_budget().release(allocation);
    assert_eq!(state.memory_used_bytes(), 0);
}

#[test]
fn memory_budget_waits_fifo_without_bypassing_larger_waiters() {
    let mut state = bounded(10);
    let first_half = state.allocate_memory(5).expect("first allocation");
    let second_half = state.allocate_memory(5).expect("second allocation");
    let larger_waiter = queued(state.memory_budget(), 6);
    let smaller_waiter = queued(state.memory_budget(), 1);

    assert!(state.memory_budget().release(first_half).is_empty());
    let larger_waiter = still_waiting(state.memory_budget(), larger_waiter);
    let smaller_waiter = still_waiting(state.memory_budget(), smaller_waiter);

    let wake = state.memory_budget().release(second_half);
    assert_eq!(wake, vec![larger_waiter.id(), smaller_waiter.id()]);
    let larger = granted(state.memory_budget(), larger_waiter);
    let smaller = granted(state.memory_budget(), smaller_waiter);
    assert_eq!(state.memory_used_bytes(), 7);

    state.memory_budget().release(larger);
    state.memory_budget().release(smaller);
    assert_eq!(state.memory_used_bytes(), 0);
}

#[test]
fn memory_budget_try_allocate_does_not_bypass_queued_waiter() {
    let mut state = bounded(10);
    let first_half = state.allocate_memory(5).expect("first allocation");
    let second_half = state.allocate_memory(5).expect("second allocation");
    let waiter = queued(state.memory_budget(), 6);

    state.memory_budget().release(first_half);

    assert!(matches!(
        state.memory_budget().try_allocate(1),
        Err(NacelleError::ResourceLimit("memory_bytes"))
    ));

    state.memory_budget().release(second_half);
    let allocation = granted(state.memory_budget(), waiter);
    assert_eq!(allocation.bytes(), 6);
    assert_eq!(state.memory_used_bytes(), 6);
    state.memory_budget().release(allocation);
    assert_eq!(state.memory_used_bytes(), 0);
}

#[test]
fn memory_budget_timeout_removes_waiter() {
    let mut state = bounded(10);
    let held = state.allocate_memory(10).expect("held allocation");
    let waiter = queued(state.memory_budget(), 1);

    let timed_out = state.memory_budget().wait_for_memory_allocation(waiter, MemoryEvent::TimedOut);
    assert!(matches!(
        timed_out,
        MemoryWait::Failed {
            error: NacelleError::Timeout("memory_allocation"),
            ..
        }
    ));
    assert_eq!(state.memory_budget().waiting(), 0);

    state.memory_budget().release(held);
    let recovered = state
        .allocate_memory(10)
        .expect("timed-out waiter should not block later allocations");
    assert_eq!(state.memory_used_bytes(), 10);
    state.memory_budget().release(recovered);
    assert_eq!(state.memory_used_bytes(), 0);
}

#[test]
fn dropping_memory_waiter_releases_queue_and_racing_grant() {
    for release_before_cancel in [false, true] {
        let mut state = bounded(10);
        let held = state.allocate_memory(10).expect("held allocation");
        let waiter = queued(state.memory_budget(), 10);
        assert_eq!(state.memory_budget().waiting(), 1);

        if release_before_cancel {
            state.memory_budget().release(held);
            assert_eq!(state.memory_used_bytes(), 10);
            state.memory_budget().abandon(waiter);
        } else {
            state.memory_budget().abandon(waiter);
            state.memory_budget().release(held);
        }

        assert_eq!(state.memory_budget().waiting(), 0);
        assert_eq!(state.memory_used_bytes(), 0);
        let recovered = state
            .allocate_memory(10)
            .expect("cancelled waiter should leave the budget reusable");
        state.memory_budget().release(recovered);
        assert_eq!(state.memory_used_bytes(), 0);
    }
}

#[test]
fn queued_grants_and_direct_allocations_share_one_atomic_ceiling() {
    const LIMIT: usize = 2;

    let mut state = bounded(LIMIT);
    let held = state.allocate_memory(LIMIT).expect("initial allocation");
    let waiter = queued(state.memory_budget(), 1);
    assert!(state.allocate_memory(1).is_err());
    state.memory_budget().release(held);

    let direct_allocation = state.allocate_memory(1).expect("direct allocation");
    let waiter_allocation = granted(state.memory_budget(), waiter);
    assert_eq!(waiter_allocation.bytes() + direct_allocation.bytes(), LIMIT);
    assert_eq!(state.memory_used_bytes(), LIMIT);

    state.memory_budget().release(waiter_allocation);
    state.memory_budget().release(direct_allocation);
    assert_eq!(state.memory_used_bytes(), 0);
}

#[test]
fn memory_budget_timeout_at_fifo_head_grants_next_waiter() {
    let mut state = bounded(10);
    let held = state.allocate_memory(5).expect("held allocation");
    let head = queued(state.memory_budget(), 6);
    let next = queued(state.memory_budget(), 5);

    match state.memory_budget().wait_for_memory_allocation(head, MemoryEvent::TimedOut) {
        MemoryWait::Failed { error, wake } => {
            assert!(matches!(error, NacelleError::Timeout("memory_allocation")));
            assert_eq!(wake, vec![next.id()]);
        }
        other => panic!("head waiter should time out, got {other:?}"),
    }

    let next_allocation = granted(state.memory_budget(), next);
    assert_eq!(state.memory_used_bytes(), 10);

    state.memory_budget().release(next_allocation);
    state.memory_budget().release(held);
    assert_eq!(state.memory_used_bytes(), 0);
}

#[test]
fn memory_budget_shutdown_cancels_waiter() {
    let mut state = bounded(10);
    let held = state.allocate_memory(10).expect("held allocation");
    let waiter = queued(state.memory_budget(), 1);

    let cancelled = state.memory_budget().wait_for_memory_allocation(waiter, MemoryEvent::Shutdown);
    assert!(matches!(
        cancelled,
        MemoryWait::Failed {
            error: NacelleError::ConnectionClosed,
            ..
        }
    ));

    state.memory_budget().release(held);
    let recovered = state
        .memory_budget()
        .try_allocate(10)
        .expect("cancelled waiter should not block later allocations");
    assert_eq!(state.memory_budget().used_bytes(), 10);
    state.memory_budget().release(recovered);
    assert_eq!(state.memory_budget().used_bytes(), 0);
}

#[test]
fn a_served_waiter_takes_its_memory_whatever_happens() {
    for event in [MemoryEvent::TimedOut, MemoryEvent::Shutdown] {
        let mut state = bounded(4);
        let held = state.allocate_memory(4).expect("held allocation");
        let waiter = queued(state.memory_budget(), 3);
        state.memory_budget().release(held);
        match state.memory_budget().wait_for_memory_allocation(waiter, event) {
            MemoryWait::Granted(allocation) => assert_eq!(allocation.bytes(), 3),
            other => panic!("expected a grant, got {other:?}"),
        }
    }
}

#[test]
fn requests_beyond_the_budget_do_not_wait() {
    let mut state = bounded(4);
    assert!(matches!(
        state.memory_budget().request(5),
        MemoryRequest::Rejected(NacelleError::ResourceLimit("memory_bytes"))
    ));
    assert!(matches!(state.memory_budget().request(0), MemoryRequest::Ready(_)));
    assert!(matches!(state.memory_budget().request(4), MemoryRequest::Ready(_)));
    assert_eq!(state.memory_budget().max_bytes(), 4);
    assert_eq!(state.memory_used_bytes(), 4);
    assert_eq!(state.memory_budget().waiting(), 0);
    assert_eq!(NacelleMemoryAllocation::empty().bytes(), 0);
}

#[test]
fn per_peer_connection_limit_rejects_and_recovers_after_drop() {
    let mut state =
        NacelleRuntimeState::new(NacelleLimits::default().with_max_connections_per_peer(1));

    let connection = state
        .acquire_connection_for_peer(LOCALHOST)
        .expect("first peer connection");
    assert!(matches!(
        state.acquire_connection_for_peer(LOCALHOST),
        Err(NacelleError::ResourceLimit("peer_connections"))
    ));

    state.release(connection);
    let _connection = state
        .acquire_connection_for_peer(LOCALHOST)
        .expect("peer connection should recover after drop");
    assert_eq!(state.active_connections(), 1);
}

#[test]
fn per_peer_connection_open_rate_rejects_churn_after_drop() {
    let mut state = NacelleRuntimeState::new(
        NacelleLimits::default()
            .with_max_connection_opens_per_peer_per_second(1)
            .with_connection_rate_limit_table_capacity(1),
    );

    let connection = state
        .acquire_connection_for_peer(LOCALHOST)
        .expect("first peer connection");
    state.release(connection);

    assert!(matches!(
        state.acquire_connection_for_peer(LOCALHOST),
        Err(NacelleError::ResourceLimit("peer_connection_rate"))
    ));
    assert_eq!(state.active_connections(), 0);
}

#[test]
fn peer_connection_rate_table_rejects_new_peers_when_full() {
    let mut state = NacelleRuntimeState::new(
        NacelleLimits::default()
            .with_max_connection_opens_per_peer_per_second(1)
            .with_connection_rate_limit_table_capacity(1),
    );

    let first = state
        .acquire_connection_for_peer(LOCALHOST)
        .expect("first peer should occupy the table");
    state.release(first);

    assert!(matches!(
        state.acquire_connection_for_peer(NEIGHBOUR),
        Err(NacelleError::ResourceLimit(
            "peer_connection_rate_table_full"
        ))
    ));
    assert_eq!(state.active_connections(), 0);
}

#[test]
fn each_counter_has_its_own_limit_and_error() {
    let mut state = NacelleRuntimeState::new(
        NacelleLimits::default()
            .with_max_connections(1)
            .with_max_streaming_tasks(1),
    );
    let connection = state.acquire_connection().expect("connection");
    assert!(matches!(
        state.acquire_connection(),
        Err(NacelleError::ResourceLimit("connections"))
    ));
    assert!(matches!(
        state.acquire_connection_for_peer(LOCALHOST),
        Err(NacelleError::ResourceLimit("connections"))
    ));
    let streaming = state.acquire_streaming_task().expect("streaming task");
    assert!(matches!(
        state.acquire_streaming_task(),
        Err(NacelleError::ResourceLimit("streaming_tasks"))
    ));
    let request = state.acquire_request().expect("request");
    state.release(connection);
    state.release(streaming);
    state.release(request);
    assert_eq!(
        (
            state.active_connections(),
            state.active_requests(),
            state.active_streaming_tasks()
        ),
        (0, 0, 0)
    );
}

#[test]
fn peers_are_limited_separately() {
    let mut state =
        NacelleRuntimeState::new(NacelleLimits::default().with_max_connections_per_peer(1));
    let first = state
        .acquire_connection_for_peer(LOCALHOST)
        .expect("first peer");
    let _second = state
        .acquire_connection_for_peer(NEIGHBOUR)
        .expect("second peer");
    let _third = state
        .acquire_connection_for_peer(IpAddr::V6(1))
        .expect("third peer");
    state.release(first);
    assert_eq!(state.active_connections(), 2);
    assert!(state.acquire_connection_for_peer(IpAddr::V6(1)).is_err());
    assert!(state.acquire_connection_for_peer(LOCALHOST).is_ok());
}

#[test]
fn a_refused_open_spends_no_rate() {
    let mut state = NacelleRuntimeState::new(
        NacelleLimits::default()
            .with_max_connections_per_peer(1)
            .with_max_connection_opens_per_peer_per_second(2)
            .with_connection_rate_limit_table_capacity(4),
    );
    let first = state
        .acquire_connection_for_peer_at(LOCALHOST, 3, 9)
        .expect("first");
    for _ in 0..5 {
        assert!(matches!(
            state.acquire_connection_for_peer_at(LOCALHOST, 3, 9),
            Err(NacelleError::ResourceLimit("peer_connections"))
        ));
    }
    state.release(first);
    let second = state
        .acquire_connection_for_peer_at(LOCALHOST, 3, 9)
        .expect("second");
    state.release(second);
    assert!(matches!(
        state.acquire_connection_for_peer_at(LOCALHOST, 3, 9),
        Err(NacelleError::ResourceLimit("peer_connection_rate"))
    ));
    assert!(state
        .acquire_connection_for_peer_at(LOCALHOST, 4, 9)
        .is_ok());
}

#[test]
fn partitioned_states_share_one_budget() {
    let (mut states, mut memory) = NacelleRuntimeState::partitioned(vec![
        NacelleLimits::default()
            .with_max_memory_bytes(16)
            .with_max_connections(1),
        NacelleLimits::default().with_max_memory_bytes(16),
    ])
    .expect("partitioned states should build");
    assert_eq!(states.len(), 2);
    assert_eq!(memory.max_bytes(), 16);
    let connection = states[0].acquire_connection().expect("connection permit");
    assert_eq!(states[0].active_connections(), 1);
    assert_eq!(states[1].active_connections(), 0);
    let first = memory.try_allocate(4).expect("first allocation");
    let second = memory.try_allocate(6).expect("second allocation");
    assert_eq!(memory.used_bytes(), 10);
    memory.release(first);
    memory.release(second);
    states[0].release(connection);

    let (states, memory) = NacelleRuntimeState::partitioned(Vec::new()).expect("no states");
    assert!(states.is_empty());
    assert_eq!(memory.max_bytes(), usize::MAX);
}

#[test]
fn limits_builders_set_their_fields() {
    let limits = NacelleLimits::default()
        .with_max_request_body_bytes(7)
        .with_max_response_body_bytes(8)
        .with_memory_allocation_timeout(Duration::from_millis(9))
        .with_handler_timeout(Duration::from_secs(3));
    assert_eq!(limits.max_request_body_bytes, 7);
    assert_eq!(limits.max_response_body_bytes, 8);
    assert_eq!(
        limits.memory_allocation_timeout,
        Some(Duration::from_millis(9))
    );
    assert_eq!(limits.handler_timeout, Some(Duration::from_secs(3)));
    let limits = limits.without_memory_allocation_timeout();
    assert_eq!(limits.memory_allocation_timeout, None);
    let state = NacelleRuntimeState::new(limits.clone());
    assert_eq!(state.limits().max_request_body_bytes, 7);
}

#[test]
fn a_budget_that_is_shared_leaves_its_state() {
    let mut state = bounded(16);
    let held = state.allocate_memory(4).expect("allocation");
    let mut shared = state.share_memory_budget().expect("a budget of its own");
    assert_eq!(shared.used_bytes(), 4);
    assert_eq!(shared.max_bytes(), 16);
    assert!(state.share_memory_budget().is_none());
    shared.release(held);
    assert_eq!(shared.used_bytes(), 0);
}

#[test]
fn used_memory_is_what_is_held() {
    let mut state = bounded(10);
    let mut first = state.allocate_memory(7).expect("first allocation");
    let waiter = queued(state.memory_budget(), 5);
    let gone = queued(state.memory_budget(), 1);
    assert_eq!(state.memory_used_bytes(), first.bytes());

    assert_eq!(state.memory_budget().shrink_to(&mut first, 4), vec![waiter.id(), gone.id()]);
    assert_eq!(state.memory_used_bytes(), 10);
    state.memory_budget().abandon(gone);
    let second = granted(state.memory_budget(), waiter);
    assert_eq!(state.memory_used_bytes(), first.bytes() + second.bytes());

    state.memory_budget().release(first);
    assert_eq!(state.memory_used_bytes(), second.bytes());
    state.memory_budget().release(second);
    assert_eq!(state.memory_used_bytes(), 0);
    assert_eq!(state.allocate_memory(10).expect("the whole budget").bytes(), 10);
}

/// How far each gauge moves.
fn gauge_snapshot(updates: Vec<MetricUpdate>) -> HashMap<&'static str, f64> {
    let mut gauges = HashMap::new();
    for update in updates {
        match update {
            MetricUpdate::Gauge {
                name,
                labels,
                up,
                amount,
            } => {
                assert!(labels.is_empty());
                let amount = amount as f64;
                *gauges.entry(name).or_insert(0.0) += if up { amount } else { -amount };
            }
            other => panic!("unexpected update {other:?}"),
        }
    }
    gauges
}

#[test]
fn runtime_gauges_track_partitioned_state_transitions() {
    let (mut states, mut memory) = NacelleRuntimeState::partitioned(vec![
        NacelleLimits::default().with_max_memory_bytes(16),
        NacelleLimits::default().with_max_memory_bytes(16),
    ])
    .expect("partitioned states should build");
    let connection = states[0].acquire_connection().expect("connection permit");
    let request = states[1].acquire_request().expect("request permit");
    let streaming = states[0]
        .acquire_streaming_task()
        .expect("streaming permit");
    let mut updates = vec![
        permit_update(&connection, true),
        permit_update(&request, true),
        permit_update(&streaming, true),
    ];
    let before = memory.used_bytes();
    let first_memory = memory.try_allocate(4).expect("first allocation");
    updates.extend(memory_updates(before, memory.used_bytes()));
    let before = memory.used_bytes();
    let second_memory = memory.try_allocate(6).expect("second allocation");
    updates.extend(memory_updates(before, memory.used_bytes()));

    let gauges = gauge_snapshot(updates);
    assert_eq!(gauges["nacelle.connections.active"], 1.0);
    assert_eq!(gauges["nacelle.requests.active"], 1.0);
    assert_eq!(gauges["nacelle.streaming_tasks.active"], 1.0);
    assert_eq!(gauges["nacelle.memory.used_bytes"], 10.0);

    let mut updates = vec![
        permit_update(&connection, false),
        permit_update(&request, false),
        permit_update(&streaming, false),
    ];
    states[0].release(connection);
    states[1].release(request);
    states[0].release(streaming);
    for allocation in [first_memory, second_memory] {
        let before = memory.used_bytes();
        memory.release(allocation);
        updates.extend(memory_updates(before, memory.used_bytes()));
    }

    let gauges = gauge_snapshot(updates);
    assert_eq!(gauges["nacelle.connections.active"], -1.0);
    assert_eq!(gauges["nacelle.requests.active"], -1.0);
    assert_eq!(gauges["nacelle.streaming_tasks.active"], -1.0);
    assert_eq!(gauges["nacelle.memory.used_bytes"], -10.0);
}

#[test]
fn permits_name_their_gauges() {
    assert_eq!(
        PermitKind::Connection {
            peer: Some(LOCALHOST)
        }
        .gauge(),
        "nacelle.connections.active"
    );
    assert_eq!(PermitKind::Request.gauge(), "nacelle.requests.active");
    assert_eq!(
        PermitKind::StreamingTask.gauge(),
        "nacelle.streaming_tasks.active"
    );
    assert!(memory_updates(7, 7).is_empty());
}

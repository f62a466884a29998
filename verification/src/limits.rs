//! Limits on a runtime's resources, and the counters that keep them.
//!
//! A runtime state has one owner; callers that share it take turns behind a
//! lock. What was acquired is a permit, which goes back through
//! [`NacelleRuntimeState::release`].
use std::collections::hash_map::RandomState;
use std::time::Instant;

use vstd::prelude::*;

use crate::address::IpAddr;
use crate::error::NacelleError;
use crate::memory::{allots, MemoryState, NacelleMemoryAllocation, NacelleMemoryBudget};
use crate::peer_rate::{
    key_of, NacellePeerRateLimitResult, NacellePeerRateLimiter, PeerTable, DEFAULT_PEER_RATE_LIMIT_TABLE_CAPACITY,
};
use crate::peers::{connections_of, peer_closed, peer_opened, PeerConnections};
use crate::time::Duration;

verus! {

/// Limits on the resources of one runtime.
#[derive(Debug)]
pub struct NacelleLimits {
    pub max_connections: usize,
    pub max_in_flight_requests: usize,
    pub max_streaming_tasks: usize,
    pub max_connections_per_peer: Option<usize>,
    pub max_connection_opens_per_peer_per_second: Option<usize>,
    pub connection_rate_limit_table_capacity: usize,
    pub max_memory_bytes: usize,
    pub max_request_body_bytes: usize,
    pub max_response_body_bytes: usize,
    pub memory_allocation_timeout: Option<Duration>,
    pub handler_timeout: Option<Duration>,
}

/// The smallest positive limit that is not below `max`.
pub open spec fn at_least_one(max: usize) -> usize {
    if max == 0 {
        1
    } else {
        max
    }
}

fn positive(max: usize) -> (limit: usize)
    ensures
        limit == at_least_one(max),
{
    if max == 0 {
        1
    } else {
        max
    }
}

impl Clone for NacelleLimits {
    fn clone(&self) -> (copy: Self)
        ensures
            copy == self,
    {
        Self {
            max_connections: self.max_connections,
            max_in_flight_requests: self.max_in_flight_requests,
            max_streaming_tasks: self.max_streaming_tasks,
            max_connections_per_peer: self.max_connections_per_peer,
            max_connection_opens_per_peer_per_second: self.max_connection_opens_per_peer_per_second,
            connection_rate_limit_table_capacity: self.connection_rate_limit_table_capacity,
            max_memory_bytes: self.max_memory_bytes,
            max_request_body_bytes: self.max_request_body_bytes,
            max_response_body_bytes: self.max_response_body_bytes,
            memory_allocation_timeout: self.memory_allocation_timeout,
            handler_timeout: self.handler_timeout,
        }
    }
}

impl Default for NacelleLimits {
    fn default() -> (limits: Self)
        ensures
            limits.is_default(),
    {
        Self {
            max_connections: 16_384,
            max_in_flight_requests: 65_536,
            max_streaming_tasks: 8_192,
            max_connections_per_peer: None,
            max_connection_opens_per_peer_per_second: None,
            connection_rate_limit_table_capacity: DEFAULT_PEER_RATE_LIMIT_TABLE_CAPACITY,
            max_memory_bytes: usize::MAX,
            max_request_body_bytes: 16 * 1024 * 1024,
            max_response_body_bytes: 16 * 1024 * 1024,
            memory_allocation_timeout: Some(Duration::from_secs(5)),
            handler_timeout: Some(Duration::from_secs(60)),
        }
    }
}

impl NacelleLimits {
    /// Bounds on everything but memory, which is counted only on request.
    pub open spec fn is_default(self) -> bool {
        &&& self.max_connections == 16_384
        &&& self.max_in_flight_requests == 65_536
        &&& self.max_streaming_tasks == 8_192
        &&& self.max_connections_per_peer is None
        &&& self.max_connection_opens_per_peer_per_second is None
        &&& self.connection_rate_limit_table_capacity == DEFAULT_PEER_RATE_LIMIT_TABLE_CAPACITY
        &&& self.max_memory_bytes == usize::MAX
        &&& self.max_request_body_bytes == 16 * 1024 * 1024
        &&& self.max_response_body_bytes == 16 * 1024 * 1024
        &&& self.memory_allocation_timeout is Some
        &&& self.memory_allocation_timeout->0@ == 5_000_000_000
        &&& self.handler_timeout is Some
        &&& self.handler_timeout->0@ == 60_000_000_000
    }

    pub fn with_max_connections(self, max: usize) -> (limits: Self)
        ensures
            limits == (NacelleLimits { max_connections: at_least_one(max), ..self }),
    {
        Self { max_connections: positive(max), ..self }
    }

    pub fn with_max_in_flight_requests(self, max: usize) -> (limits: Self)
        ensures
            limits == (NacelleLimits { max_in_flight_requests: at_least_one(max), ..self }),
    {
        Self { max_in_flight_requests: positive(max), ..self }
    }

    pub fn with_max_streaming_tasks(self, max: usize) -> (limits: Self)
        ensures
            limits == (NacelleLimits { max_streaming_tasks: at_least_one(max), ..self }),
    {
        Self { max_streaming_tasks: positive(max), ..self }
    }

    pub fn with_max_connections_per_peer(self, max: usize) -> (limits: Self)
        ensures
            limits == (NacelleLimits { max_connections_per_peer: Some(at_least_one(max)), ..self }),
    {
        Self { max_connections_per_peer: Some(positive(max)), ..self }
    }

    pub fn with_max_connection_opens_per_peer_per_second(self, max: usize) -> (limits: Self)
        ensures
            limits == (NacelleLimits {
                max_connection_opens_per_peer_per_second: Some(at_least_one(max)),
                ..self
            }),
    {
        Self { max_connection_opens_per_peer_per_second: Some(positive(max)), ..self }
    }

    /// Set the maximum number of peers tracked by the connection-open rate limiter.
    ///
    /// When the bounded table is full or cannot find an inactive entry within
    /// its fixed probe budget, new peers are rejected. This bound applies only when
    /// [`Self::with_max_connection_opens_per_peer_per_second`] is enabled.
    pub fn with_connection_rate_limit_table_capacity(self, capacity: usize) -> (limits: Self)
        ensures
            limits == (NacelleLimits {
                connection_rate_limit_table_capacity: at_least_one(capacity),
                ..self
            }),
    {
        Self { connection_rate_limit_table_capacity: positive(capacity), ..self }
    }

    pub fn with_max_memory_bytes(self, max: usize) -> (limits: Self)
        ensures
            limits == (NacelleLimits { max_memory_bytes: at_least_one(max), ..self }),
    {
        Self { max_memory_bytes: positive(max), ..self }
    }

    pub fn with_max_request_body_bytes(self, max: usize) -> (limits: Self)
        ensures
            limits == (NacelleLimits { max_request_body_bytes: max, ..self }),
    {
        Self { max_request_body_bytes: max, ..self }
    }

    pub fn with_max_response_body_bytes(self, max: usize) -> (limits: Self)
        ensures
            limits == (NacelleLimits { max_response_body_bytes: max, ..self }),
    {
        Self { max_response_body_bytes: max, ..self }
    }

    pub fn with_memory_allocation_timeout(self, timeout: Duration) -> (limits: Self)
        ensures
            limits == (NacelleLimits { memory_allocation_timeout: Some(timeout), ..self }),
    {
        Self { memory_allocation_timeout: Some(timeout), ..self }
    }

    pub fn without_memory_allocation_timeout(self) -> (limits: Self)
        ensures
            limits == (NacelleLimits { memory_allocation_timeout: None, ..self }),
    {
        Self { memory_allocation_timeout: None, ..self }
    }

    pub fn with_handler_timeout(self, timeout: Duration) -> (limits: Self)
        ensures
            limits == (NacelleLimits { handler_timeout: Some(timeout), ..self }),
    {
        Self { handler_timeout: Some(timeout), ..self }
    }
}

/// What a permit stands for.
#[derive(Debug, Clone, Copy, PartialEq, Eq, Structural)]
pub enum PermitKind {
    Connection { peer: Option<IpAddr> },
    Request,
    StreamingTask,
}

/// Something that was acquired and must be released.
#[derive(Debug)]
pub struct TrackedPermit {
    kind: PermitKind,
}

impl View for TrackedPermit {
    type V = PermitKind;

    closed spec fn view(&self) -> PermitKind {
        self.kind
    }
}

impl TrackedPermit {
    /// What the permit stands for.
    pub fn kind(&self) -> (kind: PermitKind)
        ensures
            kind == self@,
    {
        self.kind
    }
}

/// What a runtime has admitted.
pub struct RuntimeCounts {
    pub connections: nat,
    pub requests: nat,
    pub streaming_tasks: nat,
    /// Open connections by peer, where they are limited.
    pub peers: Map<IpAddr, nat>,
    /// Connection opens by peer, where their rate is limited.
    pub rates: Option<PeerTable>,
    /// The memory that was handed out, where the runtime keeps a budget of its own.
    pub memory: Option<MemoryState>,
}

/// The answer to a peer that wants to open a connection.
pub enum Opening {
    Opened,
    Refused(&'static str),
}

impl RuntimeCounts {
    /// Every counter is within its limit.
    pub open spec fn within(self, limits: NacelleLimits) -> bool {
        &&& self.connections <= limits.max_connections
        &&& self.requests <= limits.max_in_flight_requests
        &&& self.streaming_tasks <= limits.max_streaming_tasks
        &&& limits.max_connections_per_peer matches Some(max) ==> forall|peer: IpAddr| #[trigger]
            connections_of(self.peers, peer) <= max
        &&& forall|peer: IpAddr| #[trigger]
            self.peers.contains_key(peer) ==> self.peers[peer] > 0
        &&& limits.max_connection_opens_per_peer_per_second is Some <==> self.rates is Some
        &&& self.rates matches Some(table) ==> table.wf()
        &&& self.memory matches Some(memory) ==> memory.wf() && memory.max
            == limits.max_memory_bytes
    }

    /// The connection of `peer` is counted.
    pub open spec fn peer_counted(self, limits: NacelleLimits, peer: IpAddr) -> RuntimeCounts {
        RuntimeCounts {
            connections: self.connections + 1,
            peers: if limits.max_connections_per_peer is Some {
                peer_opened(self.peers, peer)
            } else {
                self.peers
            },
            ..self
        }
    }

    /// The attempt of `peer` to open a connection at `tick`, placed by `hash`.
    /// The limits are asked in order: connections, connections of the peer, and
    /// the peer's rate of opens. Only the last is changed by a refusal.
    pub open spec fn opening(self, limits: NacelleLimits, peer: IpAddr, tick: u32, hash: u64) -> (
        RuntimeCounts,
        Opening,
    ) {
        if self.connections >= limits.max_connections {
            (self, Opening::Refused("connections"))
        } else if limits.max_connections_per_peer is Some && connections_of(self.peers, peer)
            >= limits.max_connections_per_peer->0 {
            (self, Opening::Refused("peer_connections"))
        } else if limits.max_connection_opens_per_peer_per_second is Some && self.rates is Some {
            let (table, answer) = self.rates->0.attempt(
                key_of(peer),
                limits.max_connection_opens_per_peer_per_second->0 as nat,
                tick as nat,
                hash,
            );
            let counts = RuntimeCounts { rates: Some(table), ..self };
            match answer {
                NacellePeerRateLimitResult::Allowed => (
                    counts.peer_counted(limits, peer),
                    Opening::Opened,
                ),
                NacellePeerRateLimitResult::RateLimited => (
                    counts,
                    Opening::Refused("peer_connection_rate"),
                ),
                NacellePeerRateLimitResult::TableFull => (
                    counts,
                    Opening::Refused("peer_connection_rate_table_full"),
                ),
            }
        } else {
            (self.peer_counted(limits, peer), Opening::Opened)
        }
    }

    /// A permit of `kind` is released.
    pub open spec fn released(self, limits: NacelleLimits, kind: PermitKind) -> RuntimeCounts {
        match kind {
            PermitKind::Connection { peer } => RuntimeCounts {
                connections: (self.connections - 1) as nat,
                peers: if peer is Some && limits.max_connections_per_peer is Some {
                    peer_closed(self.peers, peer->0)
                } else {
                    self.peers
                },
                ..self
            },
            PermitKind::Request => RuntimeCounts { requests: (self.requests - 1) as nat, ..self },
            PermitKind::StreamingTask => RuntimeCounts {
                streaming_tasks: (self.streaming_tasks - 1) as nat,
                ..self
            },
        }
    }

    /// How many permits of the kind are out.
    pub open spec fn held(self, kind: PermitKind) -> nat {
        match kind {
            PermitKind::Connection { .. } => self.connections,
            PermitKind::Request => self.requests,
            PermitKind::StreamingTask => self.streaming_tasks,
        }
    }
}

/// The limits of one runtime and what it has admitted.
#[derive(Debug)]
pub struct NacelleRuntimeState {
    limits: NacelleLimits,
    active_connections: usize,
    active_requests: usize,
    active_streaming_tasks: usize,
    peer_connections: PeerConnections,
    peer_connection_rates: Option<NacellePeerRateLimiter>,
    memory: Option<NacelleMemoryBudget>,
}

impl View for NacelleRuntimeState {
    type V = RuntimeCounts;

    closed spec fn view(&self) -> RuntimeCounts {
        RuntimeCounts {
            connections: self.active_connections as nat,
            requests: self.active_requests as nat,
            streaming_tasks: self.active_streaming_tasks as nat,
            peers: self.peer_connections@,
            rates: match self.peer_connection_rates {
                Some(limiter) => Some(limiter@),
                None => None,
            },
            memory: match self.memory {
                Some(budget) => Some(budget@),
                None => None,
            },
        }
    }
}

impl Default for NacelleRuntimeState {
    fn default() -> (state: Self)
        ensures
            state.wf(),
            state.limited_by().is_default(),
            state@.is_idle(state.limited_by()),
            state@.memory == Some(MemoryState::unused(usize::MAX)),
    {
        Self::new(NacelleLimits::default())
    }
}

/// Takes one more from a counter that is below its limit.
fn try_acquire_counter(counter: usize, limit: usize) -> (next: Option<usize>)
    ensures
        next == (if counter < limit {
            Some((counter + 1) as usize)
        } else {
            None
        }),
{
    if counter >= limit {
        return None;
    }
    Some(counter + 1)
}

impl NacelleRuntimeState {
    /// The limits of this runtime.
    pub closed spec fn limited_by(&self) -> NacelleLimits {
        self.limits
    }

    /// Every counter is within its limit.
    pub open spec fn wf(&self) -> bool {
        self@.within(self.limited_by())
    }

    /// A runtime that has admitted nothing, with a memory budget of its own.
    pub fn new(limits: NacelleLimits) -> (state: Self)
        ensures
            state.wf(),
            state.limited_by() == limits,
            state@.is_idle(limits),
            state@.memory == Some(MemoryState::unused(limits.max_memory_bytes)),
    {
        let memory = Some(NacelleMemoryBudget::new(limits.max_memory_bytes));
        Self::new_with_memory(limits, memory)
    }

    fn new_with_memory(limits: NacelleLimits, memory: Option<NacelleMemoryBudget>) -> (state: Self)
        requires
            memory matches Some(budget) ==> budget@ == MemoryState::unused(limits.max_memory_bytes),
        ensures
            state.wf(),
            state.limited_by() == limits,
            state@.is_idle(limits),
            state@.memory == match memory {
                Some(budget) => Some(budget@),
                None => None,
            },
    {
        let peer_connection_rates = match limits.max_connection_opens_per_peer_per_second {
            Some(_) => Some(
                NacellePeerRateLimiter::new(limits.connection_rate_limit_table_capacity),
            ),
            None => None,
        };
        Self {
            limits,
            active_connections: 0,
            active_requests: 0,
            active_streaming_tasks: 0,
            peer_connections: PeerConnections::new(),
            peer_connection_rates,
            memory,
        }
    }

    /// Construct states with independent counters and one shared hard memory ceiling.
    /// The budget is kept beside the states, which share it.
    ///
    /// The ceiling is the one that all limits name; limits that differ in it
    /// are refused.
    pub fn partitioned(limits: Vec<NacelleLimits>) -> (result: Result<
        (Vec<Self>, NacelleMemoryBudget),
        NacelleError,
    >)
        ensures
            match result {
                Ok((states, budget)) => {
                    &&& same_ceiling(limits@)
                    &&& states.len() == limits.len()
                    &&& forall|i: int|
                        0 <= i < limits.len() ==> (#[trigger] states@[i]).wf()
                            && states@[i].limited_by() == limits@[i] && states@[i]@.is_idle(
                            limits@[i],
                        ) && states@[i]@.memory is None
                    &&& budget@.wf()
                    &&& budget@ == MemoryState::unused(ceiling_of(limits@))
                },
                Err(error) => !same_ceiling(limits@) && error == NacelleError::ResourceLimit(
                    "memory_limit_mismatch",
                ),
            },
    {
        let max_memory_bytes: usize = if limits.len() == 0 {
            usize::MAX
        } else {
            limits[0].max_memory_bytes
        };
        let mut states: Vec<Self> = Vec::new();
        let mut index: usize = 0;
        while index < limits.len()
            invariant
                index <= limits.len(),
                max_memory_bytes == ceiling_of(limits@),
                states.len() == index,
                forall|i: int|
                    0 <= i < index ==> (#[trigger] limits@[i]).max_memory_bytes == max_memory_bytes,
                forall|i: int|
                    0 <= i < index ==> (#[trigger] states@[i]).wf() && states@[i].limited_by()
                        == limits@[i] && states@[i]@.is_idle(limits@[i]) && states@[i]@.memory
                        is None,
            decreases limits.len() - index,
        {
            if limits[index].max_memory_bytes != max_memory_bytes {
                assert(!same_ceiling(limits@));
                return Err(NacelleError::ResourceLimit("memory_limit_mismatch"));
            }
            states.push(Self::new_with_memory(limits[index].clone(), None));
            index += 1;
        }
        Ok((states, NacelleMemoryBudget::new(max_memory_bytes)))
    }

    /// The limits of this runtime.
    pub fn limits(&self) -> (limits: &NacelleLimits)
        ensures
            *limits == self.limited_by(),
    {
        &self.limits
    }

    /// The memory budget of this runtime, which must not be kept elsewhere.
    pub fn memory_budget(&mut self) -> (budget: &mut NacelleMemoryBudget)
        requires
            old(self)@.memory is Some,
        ensures
            Some(budget@) == old(self)@.memory,
            final(self)@ == (RuntimeCounts { memory: Some(final(budget)@), ..old(self)@ }),
            final(self).limited_by() == old(self).limited_by(),
            final(self).origin() == old(self).origin(),
    {
        match &mut self.memory {
            Some(budget) => budget,
            None => vstd::pervasive::unreached(),
        }
    }

    /// Gives the memory budget of this runtime up, so that it can be kept elsewhere.
    pub fn share_memory_budget(&mut self) -> (budget: Option<NacelleMemoryBudget>)
        ensures
            old(self)@.memory == match budget {
                Some(budget) => Some(budget@),
                None => None,
            },
            final(self)@ == (RuntimeCounts { memory: None, ..old(self)@ }),
            final(self).limited_by() == old(self).limited_by(),
            final(self).origin() == old(self).origin(),
            old(self).wf() ==> final(self).wf(),
    {
        self.memory.take()
    }

    /// The bytes that the runtime's memory budget has handed out.
    pub fn memory_used_bytes(&self) -> (bytes: usize)
        requires
            self@.memory is Some,
        ensures
            bytes == self@.memory->0.used,
    {
        match &self.memory {
            Some(budget) => budget.used_bytes(),
            None => 0,
        }
    }

    /// Hands out `bytes` of the runtime's memory budget at once, or not at all.
    pub fn allocate_memory(&mut self, bytes: usize) -> (result: Result<
        NacelleMemoryAllocation,
        NacelleError,
    >)
        requires
            old(self).wf(),
            old(self)@.memory is Some,
        ensures
            final(self).wf(),
            final(self).limited_by() == old(self).limited_by(),
            final(self).origin() == old(self).origin(),
            final(self)@.memory is Some,
            allots(old(self)@.memory->0, bytes, final(self)@.memory->0, result),
            final(self)@ == (RuntimeCounts { memory: final(self)@.memory, ..old(self)@ }),
    {
        self.memory_budget().try_allocate(bytes)
    }

    /// Admits a connection without regard to its peer.
    pub fn acquire_connection(&mut self) -> (result: Result<TrackedPermit, NacelleError>)
        requires
            old(self).wf(),
        ensures
            final(self).wf(),
            final(self).limited_by() == old(self).limited_by(),
            final(self).origin() == old(self).origin(),
            acquires(
                old(self)@,
                old(self).limited_by(),
                PermitKind::Connection { peer: None },
                final(self)@,
                result,
            ),
    {
        self.acquire_connection_tracked()
    }

    /// Admits a connection without regard to its peer.
    pub fn acquire_connection_tracked(&mut self) -> (result: Result<TrackedPermit, NacelleError>)
        requires
            old(self).wf(),
        ensures
            final(self).wf(),
            final(self).limited_by() == old(self).limited_by(),
            final(self).origin() == old(self).origin(),
            acquires(
                old(self)@,
                old(self).limited_by(),
                PermitKind::Connection { peer: None },
                final(self)@,
                result,
            ),
    {
        match try_acquire_counter(self.active_connections, self.limits.max_connections) {
            Some(next) => {
                self.active_connections = next;
                assert(self@ == (RuntimeCounts { connections: next as nat, ..old(self)@ }));
                Ok(TrackedPermit { kind: PermitKind::Connection { peer: None } })
            },
            None => Err(NacelleError::ResourceLimit("connections")),
        }
    }

    /// Whether a connection of `peer` may be rated now with this time and this hash:
    /// those of the limiter, and zeros where opens are not limited.
    pub closed spec fn rates_now(&self, peer: IpAddr, tick: u32, hash: u64) -> bool {
        match self.peer_connection_rates {
            Some(limiter) => limiter.ticks(tick) && limiter.places(peer, hash),
            None => tick == 0 && hash == 0,
        }
    }

    /// The hasher and the start with which opens are rated, where they are.
    pub closed spec fn origin(&self) -> Option<(RandomState, Instant)> {
        match self.peer_connection_rates {
            Some(limiter) => Some(limiter.origin()),
            None => None,
        }
    }

    /// Admits a connection of `peer`.
    ///
    /// A rate limit is asked with the time and the hash of this moment; what is
    /// stated holds for whichever these are.
    pub fn acquire_connection_for_peer(&mut self, peer: IpAddr) -> (result: Result<
        TrackedPermit,
        NacelleError,
    >)
        requires
            old(self).wf(),
        ensures
            final(self).wf(),
            final(self).limited_by() == old(self).limited_by(),
            final(self).origin() == old(self).origin(),
            exists|tick: u32, hash: u64|
                old(self).rates_now(peer, tick, hash) && #[trigger] opens_with(
                    old(self)@,
                    old(self).limited_by(),
                    peer,
                    tick,
                    hash,
                    final(self)@,
                    result,
                ),
    {
        let (tick, hash): (u32, u64) = match &self.peer_connection_rates {
            Some(limiter) => (limiter.current_tick(), limiter.peer_hash(peer)),
            None => (0, 0),
        };
        let result = self.acquire_connection_for_peer_at(peer, tick, hash);
        assert(opens_with(old(self)@, old(self).limited_by(), peer, tick, hash, self@, result));
        result
    }

    /// Admits a connection of `peer`, whose hash is `hash`, at `tick`.
    pub fn acquire_connection_for_peer_at(&mut self, peer: IpAddr, tick: u32, hash: u64) -> (result:
        Result<TrackedPermit, NacelleError>)
        requires
            old(self).wf(),
        ensures
            final(self).wf(),
            final(self).limited_by() == old(self).limited_by(),
            final(self).origin() == old(self).origin(),
            opens_with(old(self)@, old(self).limited_by(), peer, tick, hash, final(self)@, result),
    {
        if self.active_connections >= self.limits.max_connections {
            return Err(NacelleError::ResourceLimit("connections"));
        }
        if !self.acquire_peer_connection(peer) {
            return Err(NacelleError::ResourceLimit("peer_connections"));
        }
        if let Err(error) = self.acquire_peer_connection_rate(peer, tick, hash) {
            self.release_peer_connection(peer);
            proof {
                lemma_close_undoes_open(old(self)@.peers, peer);
                assert(self@.within(self.limited_by()));
            }
            return Err(error);
        }
        self.active_connections = self.active_connections + 1;
        Ok(TrackedPermit { kind: PermitKind::Connection { peer: Some(peer) } })
    }

    /// Counts a connection of `peer` where they are limited.
    fn acquire_peer_connection(&mut self, peer: IpAddr) -> (acquired: bool)
        requires
            old(self).wf(),
        ensures
            final(self).wf(),
            final(self).limited_by() == old(self).limited_by(),
            final(self).origin() == old(self).origin(),
            acquired == (old(self).limited_by().max_connections_per_peer matches Some(max)
                ==> connections_of(old(self)@.peers, peer) < max),
            final(self)@ == if acquired && old(self).limited_by().max_connections_per_peer is Some {
                RuntimeCounts { peers: peer_opened(old(self)@.peers, peer), ..old(self)@ }
            } else {
                old(self)@
            },
    {
        match self.limits.max_connections_per_peer {
            Some(limit) => {
                let acquired = self.peer_connections.try_open(peer, limit);
                proof {
                    lemma_open_changes_one(old(self)@.peers, peer);
                }
                acquired
            },
            None => true,
        }
    }

    /// Counts one connection of `peer` fewer where they are limited.
    fn release_peer_connection(&mut self, peer: IpAddr)
        requires
            old(self).wf(),
        ensures
            final(self).wf(),
            final(self).limited_by() == old(self).limited_by(),
            final(self).origin() == old(self).origin(),
            final(self)@ == (RuntimeCounts {
                peers: if old(self).limited_by().max_connections_per_peer is Some {
                    peer_closed(old(self)@.peers, peer)
                } else {
                    old(self)@.peers
                },
                ..old(self)@
            }),
    {
        if self.limits.max_connections_per_peer.is_some() {
            self.peer_connections.close(peer);
            proof {
                lemma_close_changes_one(old(self)@.peers, peer);
            }
        }
    }

    /// Asks the limit on the rate of opens, where there is one.
    fn acquire_peer_connection_rate(&mut self, peer: IpAddr, tick: u32, hash: u64) -> (result: Result<
        (),
        NacelleError,
    >)
        requires
            old(self).wf(),
        ensures
            final(self).wf(),
            final(self).limited_by() == old(self).limited_by(),
            final(self).origin() == old(self).origin(),
            match (old(self)@.rates, old(self).limited_by().max_connection_opens_per_peer_per_second) {
                (Some(table), Some(limit)) => {
                    let (next, answer) = table.attempt(
                        key_of(peer),
                        limit as nat,
                        tick as nat,
                        hash,
                    );
                    &&& final(self)@ == (RuntimeCounts { rates: Some(next), ..old(self)@ })
                    &&& result == match answer {
                        NacellePeerRateLimitResult::Allowed => Ok::<(), NacelleError>(()),
                        NacellePeerRateLimitResult::RateLimited => Err(
                            NacelleError::ResourceLimit("peer_connection_rate"),
                        ),
                        NacellePeerRateLimitResult::TableFull => Err(
                            NacelleError::ResourceLimit("peer_connection_rate_table_full"),
                        ),
                    }
                },
                _ => result is Ok && final(self)@ == old(self)@,
            },
    {
        let limit: usize = match self.limits.max_connection_opens_per_peer_per_second {
            Some(limit) => limit,
            None => {
                return Ok(());
            },
        };
        let mut limiter = match self.peer_connection_rates.take() {
            Some(limiter) => limiter,
            None => {
                return Err(NacelleError::ResourceLimit("peer_connection_rate_table"));
            },
        };
        let answer = limiter.try_acquire_at(peer, limit, tick, hash);
        self.peer_connection_rates = Some(limiter);
        match answer {
            NacellePeerRateLimitResult::Allowed => Ok(()),
            NacellePeerRateLimitResult::RateLimited => Err(
                NacelleError::ResourceLimit("peer_connection_rate"),
            ),
            NacellePeerRateLimitResult::TableFull => Err(
                NacelleError::ResourceLimit("peer_connection_rate_table_full"),
            ),
        }
    }

    /// Admits a request.
    pub fn acquire_request(&mut self) -> (result: Result<TrackedPermit, NacelleError>)
        requires
            old(self).wf(),
        ensures
            final(self).wf(),
            final(self).limited_by() == old(self).limited_by(),
            final(self).origin() == old(self).origin(),
            acquires(
                old(self)@,
                old(self).limited_by(),
                PermitKind::Request,
                final(self)@,
                result,
            ),
    {
        self.acquire_request_tracked()
    }

    /// Admits a request.
    pub fn acquire_request_tracked(&mut self) -> (result: Result<TrackedPermit, NacelleError>)
        requires
            old(self).wf(),
        ensures
            final(self).wf(),
            final(self).limited_by() == old(self).limited_by(),
            final(self).origin() == old(self).origin(),
            acquires(
                old(self)@,
                old(self).limited_by(),
                PermitKind::Request,
                final(self)@,
                result,
            ),
    {
        match try_acquire_counter(self.active_requests, self.limits.max_in_flight_requests) {
            Some(next) => {
                self.active_requests = next;
                assert(self@ == (RuntimeCounts { requests: next as nat, ..old(self)@ }));
                Ok(TrackedPermit { kind: PermitKind::Request })
            },
            None => Err(NacelleError::ResourceLimit("in_flight_requests")),
        }
    }

    /// Admits a task that streams a body.
    pub fn acquire_streaming_task(&mut self) -> (result: Result<TrackedPermit, NacelleError>)
        requires
            old(self).wf(),
        ensures
            final(self).wf(),
            final(self).limited_by() == old(self).limited_by(),
            final(self).origin() == old(self).origin(),
            acquires(
                old(self)@,
                old(self).limited_by(),
                PermitKind::StreamingTask,
                final(self)@,
                result,
            ),
    {
        self.acquire_streaming_task_tracked()
    }

    /// Admits a task that streams a body.
    pub fn acquire_streaming_task_tracked(&mut self) -> (result: Result<TrackedPermit, NacelleError>)
        requires
            old(self).wf(),
        ensures
            final(self).wf(),
            final(self).limited_by() == old(self).limited_by(),
            final(self).origin() == old(self).origin(),
            acquires(
                old(self)@,
                old(self).limited_by(),
                PermitKind::StreamingTask,
                final(self)@,
                result,
            ),
    {
        match try_acquire_counter(self.active_streaming_tasks, self.limits.max_streaming_tasks) {
            Some(next) => {
                self.active_streaming_tasks = next;
                assert(self@ == (RuntimeCounts { streaming_tasks: next as nat, ..old(self)@ }));
                Ok(TrackedPermit { kind: PermitKind::StreamingTask })
            },
            None => Err(NacelleError::ResourceLimit("streaming_tasks")),
        }
    }

    /// Gives a permit back.
    pub fn release(&mut self, permit: TrackedPermit)
        requires
            old(self).wf(),
            old(self)@.held(permit@) > 0,
        ensures
            final(self).wf(),
            final(self).limited_by() == old(self).limited_by(),
            final(self).origin() == old(self).origin(),
            final(self)@ == old(self)@.released(old(self).limited_by(), permit@),
    {
        match permit.kind {
            PermitKind::Connection { peer } => {
                self.active_connections = self.active_connections - 1;
                if let Some(peer) = peer {
                    self.release_peer_connection(peer);
                }
            },
            PermitKind::Request => {
                self.active_requests = self.active_requests - 1;
            },
            PermitKind::StreamingTask => {
                self.active_streaming_tasks = self.active_streaming_tasks - 1;
            },
        }
    }

    pub fn active_connections(&self) -> (count: usize)
        ensures
            count == self@.connections,
    {
        self.active_connections
    }

    pub fn active_requests(&self) -> (count: usize)
        ensures
            count == self@.requests,
    {
        self.active_requests
    }

    pub fn active_streaming_tasks(&self) -> (count: usize)
        ensures
            count == self@.streaming_tasks,
    {
        self.active_streaming_tasks
    }
}

impl RuntimeCounts {
    /// Nothing is admitted and no peer is remembered. There is a table of rates, of
    /// the size that the limits name, where they limit the rate of opens.
    pub open spec fn is_idle(self, limits: NacelleLimits) -> bool {
        &&& self.connections == 0
        &&& self.requests == 0
        &&& self.streaming_tasks == 0
        &&& self.peers == Map::<IpAddr, nat>::empty()
        &&& match self.rates {
            Some(table) => limits.max_connection_opens_per_peer_per_second is Some
                && table.is_unused(limits.connection_rate_limit_table_capacity),
            None => limits.max_connection_opens_per_peer_per_second is None,
        }
    }
}

/// The memory ceiling that the first limits name.
pub open spec fn ceiling_of(limits: Seq<NacelleLimits>) -> usize {
    if limits.len() == 0 {
        usize::MAX
    } else {
        limits[0].max_memory_bytes
    }
}

/// Whether all limits name one memory ceiling.
pub open spec fn same_ceiling(limits: Seq<NacelleLimits>) -> bool {
    forall|i: int|
        0 <= i < limits.len() ==> (#[trigger] limits[i]).max_memory_bytes == ceiling_of(limits)
}

/// Whether `result` and `after` are what an attempt to get a permit of `kind`,
/// without regard to a peer, leads to.
pub open spec fn acquires(
    before: RuntimeCounts,
    limits: NacelleLimits,
    kind: PermitKind,
    after: RuntimeCounts,
    result: Result<TrackedPermit, NacelleError>,
) -> bool {
    match kind {
        PermitKind::Connection { .. } => if before.connections < limits.max_connections {
            result is Ok && result->Ok_0@ == kind && after == (RuntimeCounts {
                connections: before.connections + 1,
                ..before
            })
        } else {
            result == Err::<TrackedPermit, _>(NacelleError::ResourceLimit("connections")) && after
                == before
        },
        PermitKind::Request => if before.requests < limits.max_in_flight_requests {
            result is Ok && result->Ok_0@ == kind && after == (RuntimeCounts {
                requests: before.requests + 1,
                ..before
            })
        } else {
            result == Err::<TrackedPermit, _>(NacelleError::ResourceLimit("in_flight_requests"))
                && after == before
        },
        PermitKind::StreamingTask => if before.streaming_tasks < limits.max_streaming_tasks {
            result is Ok && result->Ok_0@ == kind && after == (RuntimeCounts {
                streaming_tasks: before.streaming_tasks + 1,
                ..before
            })
        } else {
            result == Err::<TrackedPermit, _>(NacelleError::ResourceLimit("streaming_tasks"))
                && after == before
        },
    }
}

/// Whether `result` and `after` are what an attempt of `peer` to open a
/// connection leads to.
pub open spec fn opens_with(
    before: RuntimeCounts,
    limits: NacelleLimits,
    peer: IpAddr,
    tick: u32,
    hash: u64,
    after: RuntimeCounts,
    result: Result<TrackedPermit, NacelleError>,
) -> bool {
    let (counts, answer) = before.opening(limits, peer, tick, hash);
    &&& after == counts
    &&& match answer {
        Opening::Opened => result is Ok && result->Ok_0@ == (PermitKind::Connection {
            peer: Some(peer),
        }),
        Opening::Refused(reason) => result == Err::<TrackedPermit, _>(
            NacelleError::ResourceLimit(reason),
        ),
    }
}

proof fn lemma_open_changes_one(peers: Map<IpAddr, nat>, peer: IpAddr)
    ensures
        forall|other: IpAddr|
            other != peer ==> #[trigger] connections_of(peer_opened(peers, peer), other)
                == connections_of(peers, other),
        connections_of(peer_opened(peers, peer), peer) == connections_of(peers, peer) + 1,
{
}

proof fn lemma_close_changes_one(peers: Map<IpAddr, nat>, peer: IpAddr)
    ensures
        forall|other: IpAddr|
            other != peer ==> #[trigger] connections_of(peer_closed(peers, peer), other)
                == connections_of(peers, other),
        connections_of(peer_closed(peers, peer), peer) <= connections_of(peers, peer),
{
}

proof fn lemma_close_undoes_open(peers: Map<IpAddr, nat>, peer: IpAddr)
    requires
        forall|other: IpAddr| #[trigger] peers.contains_key(other) ==> peers[other] > 0,
    ensures
        peer_closed(peer_opened(peers, peer), peer) == peers,
{
    assert(peer_closed(peer_opened(peers, peer), peer) =~= peers);
}

/// Releasing a permit undoes acquiring it.
pub proof fn law_release_undoes_acquire(counts: RuntimeCounts, limits: NacelleLimits)
    requires
        counts.within(limits),
    ensures
        (RuntimeCounts { connections: counts.connections + 1, ..counts }).released(
            limits,
            PermitKind::Connection { peer: None },
        ) == counts,
        (RuntimeCounts { requests: counts.requests + 1, ..counts }).released(
            limits,
            PermitKind::Request,
        ) == counts,
        (RuntimeCounts { streaming_tasks: counts.streaming_tasks + 1, ..counts }).released(
            limits,
            PermitKind::StreamingTask,
        ) == counts,
{
}

/// A peer's connection that was opened and released leaves nothing behind but
/// its mark on the rate of opens, and so does one that was refused.
pub proof fn law_closed_connection_leaves_only_its_rate(
    counts: RuntimeCounts,
    limits: NacelleLimits,
    peer: IpAddr,
    tick: u32,
    hash: u64,
)
    requires
        counts.within(limits),
    ensures
        ({
            let (after, answer) = counts.opening(limits, peer, tick, hash);
            let settled = match answer {
                Opening::Opened => after.released(
                    limits,
                    PermitKind::Connection { peer: Some(peer) },
                ),
                Opening::Refused(_) => after,
            };
            settled == (RuntimeCounts { rates: after.rates, ..counts })
        }),
{
    lemma_close_undoes_open(counts.peers, peer);
}

/// A connection that is refused because there are too many does not count
/// against the peer's rate of opens.
pub proof fn law_only_admissible_opens_are_rated(
    counts: RuntimeCounts,
    limits: NacelleLimits,
    peer: IpAddr,
    tick: u32,
    hash: u64,
)
    requires
        counts.within(limits),
        counts.connections == limits.max_connections || (limits.max_connections_per_peer is Some
            && connections_of(counts.peers, peer) == limits.max_connections_per_peer->0),
    ensures
        counts.opening(limits, peer, tick, hash).0 == counts,
        counts.opening(limits, peer, tick, hash).1 is Refused,
{
}

/// A limit of zero counts as one, and any other as it is.
pub proof fn law_limits_are_at_least_one(max: usize)
    ensures
        at_least_one(max) >= 1,
        max > 0 ==> at_least_one(max) == max,
        max == 0 ==> at_least_one(max) == 1,
{
}

/// A permit is given exactly while fewer of its kind are out than the limit of
/// that kind allows. It counts as one more of its kind and as nothing else; a
/// refusal names the limit and counts nothing.
pub proof fn law_permits_are_given_below_their_limit(
    before: RuntimeCounts,
    limits: NacelleLimits,
    kind: PermitKind,
    after: RuntimeCounts,
    result: Result<TrackedPermit, NacelleError>,
)
    requires
        acquires(before, limits, kind, after, result),
    ensures
        kind is Connection ==> (result is Ok <==> before.connections < limits.max_connections),
        kind is Request ==> (result is Ok <==> before.requests < limits.max_in_flight_requests),
        kind is StreamingTask ==> (result is Ok <==> before.streaming_tasks
            < limits.max_streaming_tasks),
        result matches Ok(permit) ==> {
            &&& permit@ == kind
            &&& after.connections == before.connections + if kind is Connection {
                1int
            } else {
                0
            }
            &&& after.requests == before.requests + if kind is Request {
                1int
            } else {
                0
            }
            &&& after.streaming_tasks == before.streaming_tasks + if kind is StreamingTask {
                1int
            } else {
                0
            }
            &&& after.peers == before.peers
            &&& after.rates == before.rates
            &&& after.memory == before.memory
        },
        result matches Err(error) ==> after == before && error == NacelleError::ResourceLimit(
            match kind {
                PermitKind::Connection { .. } => "connections",
                PermitKind::Request => "in_flight_requests",
                PermitKind::StreamingTask => "streaming_tasks",
            },
        ),
{
}

/// A connection of a peer is admitted exactly if fewer connections are open than
/// the limit allows, fewer of the peer where those are limited, and the peer is
/// within its rate of opens where that is limited. Only then is it counted, for
/// its peer too where peers are limited; the first limit that is reached is named.
pub proof fn law_connections_are_admitted_below_their_limits(
    before: RuntimeCounts,
    limits: NacelleLimits,
    peer: IpAddr,
    tick: u32,
    hash: u64,
    after: RuntimeCounts,
    result: Result<TrackedPermit, NacelleError>,
)
    requires
        before.within(limits),
        opens_with(before, limits, peer, tick, hash, after, result),
    ensures
        ({
            let full = before.connections >= limits.max_connections;
            let peer_full = limits.max_connections_per_peer is Some && connections_of(
                before.peers,
                peer,
            ) >= limits.max_connections_per_peer->0;
            let answer = if limits.max_connection_opens_per_peer_per_second is Some {
                before.rates->0.attempt(
                    key_of(peer),
                    limits.max_connection_opens_per_peer_per_second->0 as nat,
                    tick as nat,
                    hash,
                ).1
            } else {
                NacellePeerRateLimitResult::Allowed
            };
            &&& result is Ok <==> !full && !peer_full && answer
                == NacellePeerRateLimitResult::Allowed
            &&& result matches Ok(permit) ==> {
                &&& permit@ == (PermitKind::Connection { peer: Some(peer) })
                &&& after.connections == before.connections + 1
                &&& limits.max_connections_per_peer is Some ==> connections_of(after.peers, peer)
                    == connections_of(before.peers, peer) + 1
                &&& limits.max_connections_per_peer is None ==> after.peers == before.peers
            }
            &&& result matches Err(error) ==> {
                &&& after.connections == before.connections
                &&& after.peers == before.peers
                &&& full || peer_full ==> after == before
                &&& error == NacelleError::ResourceLimit(
                    if full {
                        "connections"
                    } else if peer_full {
                        "peer_connections"
                    } else if answer == NacellePeerRateLimitResult::RateLimited {
                        "peer_connection_rate"
                    } else {
                        "peer_connection_rate_table_full"
                    },
                )
            }
            &&& after.requests == before.requests
            &&& after.streaming_tasks == before.streaming_tasks
            &&& after.memory == before.memory
            &&& forall|other: IpAddr|
                other != peer ==> #[trigger] connections_of(after.peers, other) == connections_of(
                    before.peers,
                    other,
                )
        }),
{
}

/// Giving a permit back counts one fewer of its kind and nothing else. The peer
/// of a connection has one fewer too where peers are limited.
pub proof fn law_permits_given_back_are_counted_off(
    before: RuntimeCounts,
    limits: NacelleLimits,
    kind: PermitKind,
)
    requires
        before.held(kind) > 0,
    ensures
        ({
            let after = before.released(limits, kind);
            &&& kind is Connection ==> after.connections + 1 == before.connections
                && after.requests == before.requests && after.streaming_tasks
                == before.streaming_tasks
            &&& kind is Request ==> after.requests + 1 == before.requests && after.connections
                == before.connections && after.streaming_tasks == before.streaming_tasks
                && after.peers == before.peers
            &&& kind is StreamingTask ==> after.streaming_tasks + 1 == before.streaming_tasks
                && after.connections == before.connections && after.requests == before.requests
                && after.peers == before.peers
            &&& kind matches PermitKind::Connection { peer: Some(peer) } ==> (
            limits.max_connections_per_peer is Some && connections_of(before.peers, peer) > 0
                ==> connections_of(after.peers, peer) + 1 == connections_of(before.peers, peer))
            &&& kind == (PermitKind::Connection { peer: None }) ==> after.peers == before.peers
            &&& limits.max_connections_per_peer is None ==> after.peers == before.peers
            &&& after.rates == before.rates
            &&& after.memory == before.memory
        }),
{
}

/// Limits share a memory budget exactly if each names the same ceiling; the budget
/// has that ceiling.
pub proof fn law_shared_memory_has_one_ceiling(limits: Seq<NacelleLimits>)
    ensures
        limits.len() > 0 ==> ceiling_of(limits) == limits[0].max_memory_bytes,
        same_ceiling(limits) <==> forall|i: int, j: int|
            0 <= i < limits.len() && 0 <= j < limits.len() ==> (
            #[trigger] limits[i]).max_memory_bytes == (#[trigger] limits[j]).max_memory_bytes,
{
    if forall|i: int, j: int|
        0 <= i < limits.len() && 0 <= j < limits.len() ==> (#[trigger] limits[i]).max_memory_bytes
            == (#[trigger] limits[j]).max_memory_bytes {
        assert forall|i: int| 0 <= i < limits.len() implies (
        #[trigger] limits[i]).max_memory_bytes == ceiling_of(limits) by {
            assert(limits[0].max_memory_bytes == limits[i].max_memory_bytes);
        }
    }
    if same_ceiling(limits) {
        assert forall|i: int, j: int| 0 <= i < limits.len() && 0 <= j < limits.len() implies (
        #[trigger] limits[i]).max_memory_bytes == (#[trigger] limits[j]).max_memory_bytes by {
            assert(limits[i].max_memory_bytes == ceiling_of(limits));
        }
    }
}

/// Each setting sets its own limit and leaves the others alone. Those that count
/// what is admitted are never below one; those on bodies are taken as they are.
pub proof fn law_settings_keep_the_other_limits(
    limits: NacelleLimits,
    max: usize,
    connections: NacelleLimits,
    requests: NacelleLimits,
    tasks: NacelleLimits,
    of_peer: NacelleLimits,
    opens: NacelleLimits,
    memory: NacelleLimits,
    received: NacelleLimits,
    sent: NacelleLimits,
)
    requires
        call_ensures(NacelleLimits::with_max_connections, (limits, max), connections),
        call_ensures(NacelleLimits::with_max_in_flight_requests, (limits, max), requests),
        call_ensures(NacelleLimits::with_max_streaming_tasks, (limits, max), tasks),
        call_ensures(NacelleLimits::with_max_connections_per_peer, (limits, max), of_peer),
        call_ensures(
            NacelleLimits::with_max_connection_opens_per_peer_per_second,
            (limits, max),
            opens,
        ),
        call_ensures(NacelleLimits::with_max_memory_bytes, (limits, max), memory),
        call_ensures(NacelleLimits::with_max_request_body_bytes, (limits, max), received),
        call_ensures(NacelleLimits::with_max_response_body_bytes, (limits, max), sent),
    ensures
        ({
            let least = if max > 0 {
                max
            } else {
                1
            };
            &&& connections == NacelleLimits { max_connections: least, ..limits }
            &&& requests == NacelleLimits { max_in_flight_requests: least, ..limits }
            &&& tasks == NacelleLimits { max_streaming_tasks: least, ..limits }
            &&& of_peer == NacelleLimits { max_connections_per_peer: Some(least), ..limits }
            &&& opens == NacelleLimits {
                max_connection_opens_per_peer_per_second: Some(least),
                ..limits
            }
            &&& memory == NacelleLimits { max_memory_bytes: least, ..limits }
            &&& received == NacelleLimits { max_request_body_bytes: max, ..limits }
            &&& sent == NacelleLimits { max_response_body_bytes: max, ..limits }
        }),
{
}

/// Runtimes share one memory budget exactly if their limits name one ceiling. Each
/// then starts out idle under its own limits, and the budget has that ceiling and
/// has handed out nothing.
pub proof fn law_partitions_share_one_budget(
    limits: Vec<NacelleLimits>,
    result: Result<(Vec<NacelleRuntimeState>, NacelleMemoryBudget), NacelleError>,
)
    requires
        call_ensures(NacelleRuntimeState::partitioned, (limits,), result),
    ensures
        result is Ok <==> forall|i: int, j: int|
            0 <= i < limits@.len() && 0 <= j < limits@.len() ==> (
            #[trigger] limits@[i]).max_memory_bytes == (#[trigger] limits@[j]).max_memory_bytes,
        result matches Ok((states, budget)) ==> {
            &&& states@.len() == limits@.len()
            &&& forall|i: int|
                0 <= i < limits@.len() ==> (#[trigger] states@[i]).limited_by() == limits@[i]
                    && states@[i]@.connections == 0 && states@[i]@.requests == 0
                    && states@[i]@.streaming_tasks == 0
            &&& budget@.used == 0
            &&& limits@.len() > 0 ==> budget@.max == limits@[0].max_memory_bytes
            &&& budget@.waiters.len() == 0
        },
{
    law_shared_memory_has_one_ceiling(limits@);
}

} // verus!

//! Bounded per-peer fixed-window rate limiting.
//!
//! A limiter belongs to one owner: each attempt is one step from table to
//! table, and callers that share a limiter take turns behind a lock.
use std::collections::hash_map::RandomState;
use std::hash::BuildHasher;
use std::time::Instant;

use vstd::prelude::*;
use vstd::std_specs::convert::FromSpecImpl;

use crate::address::IpAddr;

pub mod laws;
pub mod word;

use self::word::{
    expired, generations, max_readers, next_generation, pack_rate, rate_count, rate_window, reader_limit,
    readers, retention_over, status, unpack_rate, with_reader, with_status, without_reader, word_generation,
    word_readers, word_status, writer_state, EMPTY, OCCUPIED,
};

verus! {

const MAX_PROBES: usize = 64;

/// Default maximum number of peers retained by one enabled rate limiter.
pub const DEFAULT_PEER_RATE_LIMIT_TABLE_CAPACITY: usize = 16_384;

/// A point in time, from `std`.
#[verifier::external_type_specification]
#[verifier::external_body]
pub struct ExInstant(std::time::Instant);

/// Result of one peer-rate-limit admission attempt.
#[derive(Debug, Clone, Copy, PartialEq, Eq, Structural)]
pub enum NacellePeerRateLimitResult {
    /// The peer is within its fixed-window budget.
    Allowed,
    /// The peer has exhausted its fixed-window budget.
    RateLimited,
    /// The bounded peer table has no safely reusable entry.
    TableFull,
}

impl NacellePeerRateLimitResult {
    /// Whether the admission attempt succeeded.
    pub fn is_allowed(self) -> (allowed: bool)
        ensures
            allowed == (self == NacellePeerRateLimitResult::Allowed),
    {
        matches!(self, Self::Allowed)
    }
}

/// The exact identity of a peer.
#[derive(Debug, Clone, Copy, PartialEq, Eq, Structural, Hash)]
pub struct PeerRateKey {
    pub kind: u8,
    pub high: u64,
    pub low: u64,
}

/// The key of an address: its family and its two 64-bit halves.
pub open spec fn key_of(peer: IpAddr) -> PeerRateKey {
    match peer {
        IpAddr::V4(bits) => PeerRateKey { kind: 4, high: 0, low: bits as u64 },
        IpAddr::V6(bits) => PeerRateKey {
            kind: 6,
            high: (bits / 0x1_0000_0000_0000_0000) as u64,
            low: (bits % 0x1_0000_0000_0000_0000) as u64,
        },
    }
}

impl FromSpecImpl<IpAddr> for PeerRateKey {
    open spec fn obeys_from_spec() -> bool {
        true
    }

    open spec fn from_spec(peer: IpAddr) -> Self {
        key_of(peer)
    }
}

impl From<IpAddr> for PeerRateKey {
    fn from(peer: IpAddr) -> (key: Self) {
        match peer {
            IpAddr::V4(bits) => Self { kind: 4, high: 0, low: bits as u64 },
            IpAddr::V6(bits) => {
                let high: u128 = bits / 0x1_0000_0000_0000_0000u128;
                let low: u128 = bits % 0x1_0000_0000_0000_0000u128;
                Self { kind: 6, high: high as u64, low: low as u64 }
            },
        }
    }
}

/// What one slot of the table holds.
pub struct PeerSlotState {
    /// 0 empty, 1 being written, 2 occupied.
    pub status: nat,
    /// Reads of the entry that are under way.
    pub readers: nat,
    pub generation: nat,
    pub key: PeerRateKey,
    /// The window that `count` belongs to.
    pub window: nat,
    pub count: nat,
    pub last_seen: nat,
}

impl PeerSlotState {
    pub open spec fn occupied(self) -> bool {
        self.status == 2
    }

    /// Whether another read of the entry may start.
    pub open spec fn readable(self) -> bool {
        self.occupied() && self.readers < reader_limit()
    }

    /// Whether the slot holds `key` and can be read.
    pub open spec fn answers(self, key: PeerRateKey) -> bool {
        self.readable() && self.key == key
    }

    /// The slot once it has been given to `key` at `tick`, with one event counted.
    pub open spec fn given_to(self, key: PeerRateKey, tick: nat) -> PeerSlotState {
        PeerSlotState {
            status: 2,
            readers: 0,
            generation: (self.generation + 2) % generations(),
            key,
            window: tick,
            count: 1,
            last_seen: tick,
        }
    }

    /// One more event of the slot's peer: what the slot then holds, and the answer.
    pub open spec fn counted(self, limit: nat, tick: nat) -> (
        PeerSlotState,
        NacellePeerRateLimitResult,
    ) {
        if self.window != tick {
            (
                PeerSlotState { window: tick, count: 1, last_seen: tick, ..self },
                NacellePeerRateLimitResult::Allowed,
            )
        } else if self.count >= limit || self.count >= u32::MAX {
            (
                PeerSlotState { last_seen: tick, ..self },
                NacellePeerRateLimitResult::RateLimited,
            )
        } else {
            (
                PeerSlotState { count: self.count + 1, last_seen: tick, ..self },
                NacellePeerRateLimitResult::Allowed,
            )
        }
    }
}

/// How the search for a slot for an unknown peer ends.
pub enum Probe {
    /// The slot already holds the peer.
    Known(int),
    /// The slot is free for the peer.
    Free(int),
    /// No slot may be used.
    Exhausted,
}

/// What a limiter remembers.
pub struct PeerTable {
    /// Peers that may be remembered at once.
    pub capacity: nat,
    /// Peers that are remembered.
    pub active: nat,
    pub slots: Seq<PeerSlotState>,
    /// Hashes whose peers are being placed; zero where none is.
    pub reservations: Seq<u64>,
}

/// How many slots a search looks at.
pub open spec fn probe_count(len: nat) -> nat {
    if len < 64 {
        len
    } else {
        64
    }
}

/// The slot `offset` places after `start`, around the end of the table.
pub open spec fn probe_slot(start: int, offset: int, len: int) -> int {
    if start + offset < len {
        start + offset
    } else {
        start + offset - len
    }
}

/// How many slots are in use.
pub open spec fn used_slots(slots: Seq<PeerSlotState>) -> nat
    decreases slots.len(),
{
    if slots.len() == 0 {
        0
    } else {
        used_slots(slots.drop_last()) + if slots.last().status != 0 {
            1nat
        } else {
            0nat
        }
    }
}

/// The place in a table of `len` entries where a hash starts.
pub open spec fn home_slot(hash: u64, len: nat) -> int {
    (hash as usize) as int % len as int
}

/// The nonzero form of a hash, under which its peer is reserved.
pub open spec fn reservation_key(hash: u64) -> u64 {
    if hash == 0 {
        1
    } else {
        hash
    }
}

impl PeerTable {
    /// Between attempts every slot is empty or occupied, the count of
    /// remembered peers is exact and within the capacity, and an entry was
    /// last seen in the window that it counts.
    pub open spec fn wf(self) -> bool {
        &&& self.capacity >= 1
        &&& self.slots.len() >= 2
        &&& self.reservations.len() == self.slots.len()
        &&& self.active == used_slots(self.slots)
        &&& self.active <= self.capacity
        &&& forall|i: int| 0 <= i < self.slots.len() ==> slot_wf(#[trigger] self.slots[i])
    }

    /// A table for `capacity` peers, and for one at least, that remembers nobody. It
    /// has two slots for each.
    pub open spec fn is_unused(self, capacity: usize) -> bool {
        &&& self.capacity == if capacity == 0 {
            1
        } else {
            capacity as nat
        }
        &&& self.active == 0
        &&& self.slots.len() == if 2 * self.capacity > usize::MAX {
            usize::MAX as nat
        } else {
            2 * self.capacity
        }
        &&& forall|i: int|
            0 <= i < self.slots.len() ==> #[trigger] self.slots[i] == vacant_slot()
        &&& forall|i: int|
            0 <= i < self.reservations.len() ==> #[trigger] self.reservations[i] == 0
    }

    /// The first slot of the search that holds `key`, from `offset` on.
    pub open spec fn known_slot(self, key: PeerRateKey, start: int, offset: int) -> Option<int>
        decreases probe_count(self.slots.len()) - offset,
    {
        let index = probe_slot(start, offset, self.slots.len() as int);
        if offset >= probe_count(self.slots.len()) {
            None
        } else if self.slots[index].answers(key) {
            Some(index)
        } else {
            self.known_slot(key, start, offset + 1)
        }
    }

    /// The search for a slot for `key`, from `offset` on. Empty slots serve
    /// only while there is capacity, entries of other peers only when their
    /// retention is over, and a slot that cannot be judged ends the search.
    pub open spec fn cold_slot(self, key: PeerRateKey, tick: nat, start: int, offset: int) -> Probe
        decreases probe_count(self.slots.len()) - offset,
    {
        let index = probe_slot(start, offset, self.slots.len() as int);
        let slot = self.slots[index];
        if offset >= probe_count(self.slots.len()) {
            Probe::Exhausted
        } else if slot.status == 0 {
            if self.active < self.capacity {
                Probe::Free(index)
            } else {
                self.cold_slot(key, tick, start, offset + 1)
            }
        } else if !slot.readable() {
            Probe::Exhausted
        } else if slot.key == key {
            Probe::Known(index)
        } else if !retention_over(slot.last_seen, tick) {
            self.cold_slot(key, tick, start, offset + 1)
        } else if slot.readers != 0 {
            Probe::Exhausted
        } else {
            Probe::Free(index)
        }
    }

    /// One more event of the peer in slot `index`.
    pub open spec fn count_event(self, index: int, limit: nat, tick: nat) -> (
        PeerTable,
        NacellePeerRateLimitResult,
    ) {
        let (slot, answer) = self.slots[index].counted(limit, tick);
        (PeerTable { slots: self.slots.update(index, slot), ..self }, answer)
    }

    /// Slot `index` is given to `key`.
    pub open spec fn give_slot(self, index: int, key: PeerRateKey, tick: nat) -> PeerTable {
        PeerTable {
            active: if self.slots[index].status == 0 {
                self.active + 1
            } else {
                self.active
            },
            slots: self.slots.update(index, self.slots[index].given_to(key, tick)),
            ..self
        }
    }

    /// The placement of a peer that no readable slot holds.
    pub open spec fn place(self, key: PeerRateKey, limit: nat, tick: nat, start: int) -> (
        PeerTable,
        NacellePeerRateLimitResult,
    ) {
        match self.cold_slot(key, tick, start, 0) {
            Probe::Known(index) => self.count_event(index, limit, tick),
            Probe::Free(index) => (
                self.give_slot(index, key, tick),
                NacellePeerRateLimitResult::Allowed,
            ),
            Probe::Exhausted => (self, NacellePeerRateLimitResult::TableFull),
        }
    }

    /// One attempt to admit an event of `key`, whose hash is `hash`, at `tick`:
    /// the table that follows, and the answer.
    pub open spec fn attempt(self, key: PeerRateKey, limit: nat, tick: nat, hash: u64) -> (
        PeerTable,
        NacellePeerRateLimitResult,
    ) {
        let len = self.slots.len();
        let start = home_slot(hash, len);
        if limit == 0 {
            (self, NacellePeerRateLimitResult::RateLimited)
        } else {
            match self.known_slot(key, start, 0) {
                Some(index) => self.count_event(index, limit, tick),
                None => if self.reservations[home_slot(reservation_key(hash), len)] != 0 {
                    (self, NacellePeerRateLimitResult::TableFull)
                } else {
                    self.place(key, limit, tick, start)
                },
            }
        }
    }
}

/// Whether one attempt to admit an event of `peer` under `limit` at `tick` has this
/// answer, and leaves `after`.
pub open spec fn rates(
    before: PeerTable,
    peer: IpAddr,
    limit: usize,
    tick: u32,
    hash: u64,
    after: PeerTable,
    answer: NacellePeerRateLimitResult,
) -> bool {
    (after, answer) == before.attempt(key_of(peer), limit as nat, tick as nat, hash)
}

impl PeerTable {
    /// The table while `place` is reserved under `key`.
    pub open spec fn reserved(self, place: int, key: u64) -> PeerTable {
        PeerTable { reservations: self.reservations.update(place, key), ..self }
    }

    /// The table once `place` is not reserved any more.
    pub open spec fn unreserved(self, place: int) -> PeerTable {
        PeerTable { reservations: self.reservations.update(place, 0), ..self }
    }

    /// The table while one more reads slot `index`.
    pub open spec fn read_started(self, index: int) -> PeerTable {
        let slot = PeerSlotState { readers: self.slots[index].readers + 1, ..self.slots[index] };
        PeerTable { slots: self.slots.update(index, slot), ..self }
    }

    /// The table once one fewer reads slot `index`.
    pub open spec fn read_ended(self, index: int) -> PeerTable {
        let slot = PeerSlotState {
            readers: (self.slots[index].readers - 1) as nat,
            ..self.slots[index]
        };
        PeerTable { slots: self.slots.update(index, slot), ..self }
    }
}

/// A slot that has never been used.
pub open spec fn vacant_slot() -> PeerSlotState {
    PeerSlotState {
        status: 0,
        readers: 0,
        generation: 0,
        key: PeerRateKey { kind: 0, high: 0, low: 0 },
        window: 0,
        count: 0,
        last_seen: 0,
    }
}

/// What holds of every slot between attempts.
pub open spec fn slot_wf(slot: PeerSlotState) -> bool {
    &&& slot.status == 0 || slot.status == 2
    &&& slot.readers <= reader_limit()
    &&& slot.status == 0 ==> slot.readers == 0
    &&& slot.generation < generations()
    &&& slot.window <= u32::MAX
    &&& slot.count <= u32::MAX
    &&& slot.last_seen == slot.window
}

/// One slot of the table, in its packed words.
#[derive(Debug, Clone, Copy)]
pub struct PeerRateSlot {
    state: u64,
    key: PeerRateKey,
    rate: u64,
    last_seen: u32,
}

impl View for PeerRateSlot {
    type V = PeerSlotState;

    closed spec fn view(&self) -> PeerSlotState {
        PeerSlotState {
            status: word_status(self.state),
            readers: word_readers(self.state),
            generation: word_generation(self.state),
            key: self.key,
            window: rate_window(self.rate),
            count: rate_count(self.rate),
            last_seen: self.last_seen as nat,
        }
    }
}

impl PeerRateSlot {
    fn new() -> (slot: Self)
        ensures
            slot@ == vacant_slot(),
    {
        Self { state: EMPTY, key: PeerRateKey { kind: 0, high: 0, low: 0 }, rate: 0, last_seen: 0 }
    }

    /// Whether a read of the entry may start.
    fn readable(&self) -> (yes: bool)
        ensures
            yes == self@.readable(),
    {
        status(self.state) == OCCUPIED && readers(self.state) != max_readers()
    }

    fn initialize(&mut self, key: PeerRateKey, tick: u32)
        ensures
            final(self)@ == (PeerSlotState {
                key,
                window: tick as nat,
                count: 1,
                last_seen: tick as nat,
                ..old(self)@
            }),
    {
        self.key = key;
        self.rate = pack_rate(tick, 1);
        self.last_seen = tick;
    }

    fn publish(&mut self, writing: u64)
        ensures
            final(self)@ == (PeerSlotState {
                status: 2,
                readers: 0,
                generation: (word_generation(writing) + 1) % generations(),
                ..old(self)@
            }),
    {
        self.state = with_status(next_generation(writing), OCCUPIED);
    }

    /// Gives the slot to `key`.
    fn give_to(&mut self, key: PeerRateKey, tick: u32)
        ensures
            final(self)@ == old(self)@.given_to(key, tick as nat),
    {
        let writing = writer_state(self.state);
        self.initialize(key, tick);
        self.publish(writing);
    }

    /// Counts one event against the peer's budget.
    fn admit_existing(&mut self, limit: usize, tick: u32) -> (answer: NacellePeerRateLimitResult)
        ensures
            (final(self)@, answer) == old(self)@.counted(limit as nat, tick as nat),
    {
        let (window, count) = unpack_rate(self.rate);
        if window != tick {
            self.rate = pack_rate(tick, 1);
        } else if count as usize >= limit || count == u32::MAX {
            self.last_seen = tick;
            return NacellePeerRateLimitResult::RateLimited;
        } else {
            self.rate = pack_rate(window, count + 1);
        }
        self.last_seen = tick;
        NacellePeerRateLimitResult::Allowed
    }
}

/// A read of an entry that is under way; it keeps the entry from being reused.
#[derive(Debug)]
pub struct SlotReader {
    index: usize,
}

impl SlotReader {
    /// The slot that is being read.
    pub closed spec fn slot(&self) -> int {
        self.index as int
    }
}

/// A hash whose peer is being placed; it keeps others of its place waiting.
#[derive(Debug)]
pub struct KeyReservation {
    index: usize,
}

impl KeyReservation {
    /// The reservation that is held.
    pub closed spec fn place(&self) -> int {
        self.index as int
    }
}

/// The time now, from [`Instant::now`]. Nothing is claimed of it.
#[verifier::external_body]
fn now() -> Instant {
    Instant::now()
}

/// The whole seconds since `start`, from [`Instant::elapsed`]. Nothing is
/// claimed of them: they depend on when the call is made.
#[verifier::external_body]
fn seconds_since(start: &Instant) -> u64 {
    start.elapsed().as_secs()
}

/// A hasher with a random seed, from [`RandomState::new`]. Nothing is claimed
/// of it.
#[verifier::external_body]
fn seeded_hasher() -> RandomState {
    RandomState::new()
}

/// The hash of a key, from [`BuildHasher::hash_one`]. Nothing is claimed of it:
/// it depends on the seed of the hasher. That one hasher gives a key the same
/// hash each time is left unsaid.
#[verifier::external_body]
fn hash_of(hasher: &RandomState, key: &PeerRateKey) -> u64 {
    hasher.hash_one(key)
}

/// A bounded, exact-IP fixed-window rate limiter.
///
/// The table has a fixed capacity. Admission probes a fixed number of slots. A
/// full table rejects a newly observed peer rather than allocating or scanning
/// every tracked peer.
#[derive(Debug)]
pub struct NacellePeerRateLimiter {
    started_at: Instant,
    hasher: RandomState,
    capacity: usize,
    active_entries: usize,
    key_reservations: Vec<u64>,
    slots: Vec<PeerRateSlot>,
}

impl View for NacellePeerRateLimiter {
    type V = PeerTable;

    closed spec fn view(&self) -> PeerTable {
        PeerTable {
            capacity: self.capacity as nat,
            active: self.active_entries as nat,
            slots: self.slots@.map_values(|slot: PeerRateSlot| slot@),
            reservations: self.key_reservations@,
        }
    }
}

/// The tick that a limiter has come to after `seconds`.
pub fn tick_after(seconds: u64) -> (tick: u32)
    ensures
        tick == seconds % 0x1_0000_0000,
{
    assert(seconds as u32 as u64 == seconds % 0x1_0000_0000u64) by (bit_vector);
    #[verifier::truncate]
    let tick: u32 = seconds as u32;
    tick
}

/// The place of a hash in a table of `len` entries.
fn home(hash: u64, len: usize) -> (index: usize)
    requires
        len > 0,
    ensures
        index == home_slot(hash, len as nat),
        index < len,
{
    #[verifier::truncate]
    let narrow: usize = hash as usize;
    narrow % len
}

/// The slot `offset` places after `start`, around the end of the table.
fn probe_index(start: usize, offset: usize, len: usize) -> (index: usize)
    requires
        start < len,
        offset < len,
    ensures
        index == probe_slot(start as int, offset as int, len as int),
        index < len,
{
    if start < len - offset {
        start + offset
    } else {
        start - (len - offset)
    }
}

/// Changing one slot changes the number of used slots by that slot alone.
proof fn lemma_used_slots_update(slots: Seq<PeerSlotState>, index: int, slot: PeerSlotState)
    requires
        0 <= index < slots.len(),
    ensures
        used_slots(slots.update(index, slot)) + if slots[index].status != 0 {
            1nat
        } else {
            0nat
        } == used_slots(slots) + if slot.status != 0 {
            1nat
        } else {
            0nat
        },
    decreases slots.len(),
{
    let changed = slots.update(index, slot);
    if index == slots.len() - 1 {
        assert(changed.drop_last() =~= slots.drop_last());
    } else {
        assert(changed.drop_last() =~= slots.drop_last().update(index, slot));
        lemma_used_slots_update(slots.drop_last(), index, slot);
    }
}

/// A table of empty slots has none in use.
proof fn lemma_no_slot_used(slots: Seq<PeerSlotState>)
    requires
        forall|i: int| 0 <= i < slots.len() ==> (#[trigger] slots[i]).status == 0,
    ensures
        used_slots(slots) == 0,
    decreases slots.len(),
{
    if slots.len() > 0 {
        lemma_no_slot_used(slots.drop_last());
    }
}

/// The search for a slot does not look at the reservations.
proof fn lemma_search_ignores_reservations(
    table: PeerTable,
    held: Seq<u64>,
    key: PeerRateKey,
    tick: nat,
    start: int,
    offset: int,
)
    ensures
        (PeerTable { reservations: held, ..table }).cold_slot(key, tick, start, offset)
            == table.cold_slot(key, tick, start, offset),
    decreases probe_count(table.slots.len()) - offset,
{
    if offset < probe_count(table.slots.len()) {
        lemma_search_ignores_reservations(table, held, key, tick, start, offset + 1);
    }
}

/// The placement of a peer neither looks at the reservations nor changes them.
proof fn lemma_place_ignores_reservations(
    table: PeerTable,
    held: Seq<u64>,
    key: PeerRateKey,
    limit: nat,
    tick: nat,
    start: int,
)
    ensures
        ({
            let (placed, answer) = table.place(key, limit, tick, start);
            (PeerTable { reservations: held, ..table }).place(key, limit, tick, start) == (
                PeerTable { reservations: held, ..placed },
                answer,
            )
        }),
{
    lemma_search_ignores_reservations(table, held, key, tick, start, 0);
}

impl NacellePeerRateLimiter {
    /// Construct a limiter that tracks at most `capacity` peers at one time.
    pub fn new(capacity: usize) -> (limiter: Self)
        ensures
            limiter@.wf(),
            limiter@.is_unused(capacity),
    {
        let capacity: usize = if capacity == 0 {
            1
        } else {
            capacity
        };
        let slot_count: usize = if capacity > usize::MAX / 2 {
            usize::MAX
        } else {
            2 * capacity
        };
        let mut key_reservations: Vec<u64> = Vec::new();
        let mut slots: Vec<PeerRateSlot> = Vec::new();
        while slots.len() < slot_count
            invariant
                slots.len() <= slot_count,
                key_reservations.len() == slots.len(),
                forall|i: int| 0 <= i < slots.len() ==> (#[trigger] slots@[i])@ == vacant_slot(),
                forall|i: int| 0 <= i < slots.len() ==> #[trigger] key_reservations@[i] == 0,
            decreases slot_count - slots.len(),
        {
            key_reservations.push(0);
            slots.push(PeerRateSlot::new());
        }
        let limiter = Self {
            started_at: now(),
            hasher: seeded_hasher(),
            capacity,
            active_entries: 0,
            key_reservations,
            slots,
        };
        proof {
            lemma_no_slot_used(limiter@.slots);
        }
        limiter
    }

    /// Maximum number of peer entries retained by this limiter.
    pub fn capacity(&self) -> (capacity: usize)
        ensures
            capacity == self@.capacity,
    {
        self.capacity
    }

    /// Number of peer entries retained now.
    pub fn active_entries(&self) -> (active: usize)
        ensures
            active == self@.active,
    {
        self.active_entries
    }

    /// Whether the limiter's hasher may give `hash` for `peer`.
    pub closed spec fn places(&self, peer: IpAddr, hash: u64) -> bool {
        call_ensures(hash_of, (&self.hasher, &key_of(peer)), hash)
    }

    /// Whether the limiter's clock may show `tick`: whole seconds since the limiter
    /// was made, modulo 2^32.
    pub closed spec fn ticks(&self, tick: u32) -> bool {
        exists|seconds: u64|
            {
                &&& #[trigger] call_ensures(seconds_since, (&self.started_at,), seconds)
                &&& tick == seconds % 0x1_0000_0000
            }
    }

    /// The hasher and the start of the limiter, which it keeps.
    pub closed spec fn origin(&self) -> (RandomState, Instant) {
        (self.hasher, self.started_at)
    }

    /// The hash that places `peer` in this limiter's table.
    pub fn peer_hash(&self, peer: IpAddr) -> (hash: u64)
        ensures
            self.places(peer, hash),
    {
        hash_of(&self.hasher, &PeerRateKey::from(peer))
    }

    /// Whole seconds since the limiter was made, modulo 2^32.
    pub fn current_tick(&self) -> (tick: u32)
        ensures
            self.ticks(tick),
    {
        let seconds: u64 = seconds_since(&self.started_at);
        assert(call_ensures(seconds_since, (&self.started_at,), seconds));
        tick_after(seconds)
    }

    /// Attempt to admit one event for `peer` under a per-second `limit`.
    pub fn try_acquire(&mut self, peer: IpAddr, limit: usize) -> (answer: NacellePeerRateLimitResult)
        requires
            old(self)@.wf(),
        ensures
            final(self)@.wf(),
            final(self).origin() == old(self).origin(),
            limit == 0 ==> answer == NacellePeerRateLimitResult::RateLimited && final(self)@ == old(self)@,
            exists|tick: u32, hash: u64|
                {
                    &&& old(self).ticks(tick)
                    &&& old(self).places(peer, hash)
                    &&& #[trigger] rates(
                        old(self)@,
                        peer,
                        limit,
                        tick,
                        hash,
                        final(self)@,
                        answer,
                    )
                },
    {
        let tick = self.current_tick();
        let hash = self.peer_hash(peer);
        self.try_acquire_at(peer, limit, tick, hash)
    }

    /// Attempt to admit one event for `peer`, whose hash is `hash`, at `tick`.
    pub fn try_acquire_at(&mut self, peer: IpAddr, limit: usize, tick: u32, hash: u64) -> (answer:
        NacellePeerRateLimitResult)
        requires
            old(self)@.wf(),
        ensures
            final(self)@.wf(),
            final(self).origin() == old(self).origin(),
            rates(old(self)@, peer, limit, tick, hash, final(self)@, answer),
    {
        if limit == 0 {
            return NacellePeerRateLimitResult::RateLimited;
        }
        let key = PeerRateKey::from(peer);
        let start = home(hash, self.slots.len());
        if let Some(answer) = self.try_admit_existing(key, limit, tick, start) {
            return answer;
        }
        let reserved: u64 = if hash == 0 {
            1
        } else {
            hash
        };
        match self.try_reserve_key(reserved) {
            Some(reservation) => {
                let ghost held = self@.reservations;
                let answer = self.try_acquire_reserved(key, limit, tick, start);
                self.release_key(reservation);
                proof {
                    lemma_place_ignores_reservations(
                        old(self)@,
                        held,
                        key,
                        limit as nat,
                        tick as nat,
                        start as int,
                    );
                    assert(self@.reservations =~= old(self)@.reservations);
                }
                answer
            },
            None => NacellePeerRateLimitResult::TableFull,
        }
    }

    /// Counts the event if a readable slot already holds the peer.
    fn try_admit_existing(&mut self, key: PeerRateKey, limit: usize, tick: u32, start: usize) -> (answer:
        Option<NacellePeerRateLimitResult>)
        requires
            old(self)@.wf(),
            start < old(self)@.slots.len(),
        ensures
            final(self)@.wf(),
            final(self).origin() == old(self).origin(),
            match old(self)@.known_slot(key, start as int, 0) {
                Some(index) => answer is Some && (final(self)@, answer->0) == old(self)@.count_event(
                    index,
                    limit as nat,
                    tick as nat,
                ),
                None => answer is None && final(self)@ == old(self)@,
            },
    {
        let len = self.slots.len();
        let probes: usize = if len < MAX_PROBES {
            len
        } else {
            MAX_PROBES
        };
        let mut offset: usize = 0;
        while offset < probes
            invariant
                self@ == old(self)@,
                self.origin() == old(self).origin(),
                self@.wf(),
                len == self@.slots.len(),
                len == self.slots.len(),
                start < len,
                probes == probe_count(len as nat),
                offset <= probes,
                old(self)@.known_slot(key, start as int, 0) == old(self)@.known_slot(
                    key,
                    start as int,
                    offset as int,
                ),
            decreases probes - offset,
        {
            let index = probe_index(start, offset, len);
            let slot = self.slots[index];
            assert(slot@ == self@.slots[index as int]);
            if slot.readable() && slot.key == key {
                return Some(self.count_at(index, limit, tick));
            }
            offset += 1;
        }
        None
    }

    /// Counts one event of the peer in slot `index`.
    fn count_at(&mut self, index: usize, limit: usize, tick: u32) -> (answer:
        NacellePeerRateLimitResult)
        requires
            old(self)@.wf(),
            index < old(self)@.slots.len(),
            old(self)@.slots[index as int].occupied(),
        ensures
            final(self)@.wf(),
            final(self).origin() == old(self).origin(),
            (final(self)@, answer) == old(self)@.count_event(
                index as int,
                limit as nat,
                tick as nat,
            ),
    {
        let mut slot = self.slots[index];
        assert(slot@ == self@.slots[index as int]);
        let answer = slot.admit_existing(limit, tick);
        self.slots.set(index, slot);
        proof {
            assert(self@.slots =~= old(self)@.slots.update(index as int, slot@));
            lemma_used_slots_update(old(self)@.slots, index as int, slot@);
        }
        answer
    }

    /// Gives slot `index` to `key`.
    fn give_at(&mut self, index: usize, key: PeerRateKey, tick: u32)
        requires
            old(self)@.wf(),
            index < old(self)@.slots.len(),
            old(self)@.slots[index as int].status == 0 ==> old(self)@.active < old(self)@.capacity,
        ensures
            final(self)@.wf(),
            final(self).origin() == old(self).origin(),
            final(self)@ == old(self)@.give_slot(index as int, key, tick as nat),
    {
        let mut slot = self.slots[index];
        assert(slot@ == self@.slots[index as int]);
        if status(slot.state) == EMPTY {
            self.active_entries = self.active_entries + 1;
        }
        slot.give_to(key, tick);
        self.slots.set(index, slot);
        proof {
            assert(self@.slots =~= old(self)@.slots.update(index as int, slot@));
            lemma_used_slots_update(old(self)@.slots, index as int, slot@);
        }
    }

    /// Finds and fills a slot for a peer that holds its reservation.
    fn try_acquire_reserved(&mut self, key: PeerRateKey, limit: usize, tick: u32, start: usize) -> (answer:
        NacellePeerRateLimitResult)
        requires
            old(self)@.wf(),
            start < old(self)@.slots.len(),
        ensures
            final(self)@.wf(),
            final(self).origin() == old(self).origin(),
            (final(self)@, answer) == old(self)@.place(key, limit as nat, tick as nat, start as int),
    {
        let len = self.slots.len();
        let probes: usize = if len < MAX_PROBES {
            len
        } else {
            MAX_PROBES
        };
        let mut offset: usize = 0;
        while offset < probes
            invariant
                self@ == old(self)@,
                self.origin() == old(self).origin(),
                self@.wf(),
                len == self@.slots.len(),
                len == self.slots.len(),
                start < len,
                probes == probe_count(len as nat),
                offset <= probes,
                old(self)@.cold_slot(key, tick as nat, start as int, 0) == old(self)@.cold_slot(
                    key,
                    tick as nat,
                    start as int,
                    offset as int,
                ),
            decreases probes - offset,
        {
            let index = probe_index(start, offset, len);
            let slot = self.slots[index];
            assert(slot@ == self@.slots[index as int]);
            if status(slot.state) == EMPTY {
                if self.has_free_entry() {
                    self.give_at(index, key, tick);
                    return NacellePeerRateLimitResult::Allowed;
                }
            } else if !slot.readable() {
                return NacellePeerRateLimitResult::TableFull;
            } else if slot.key == key {
                return self.count_at(index, limit, tick);
            } else if expired(slot.last_seen, tick) {
                if readers(slot.state) != 0 {
                    return NacellePeerRateLimitResult::TableFull;
                }
                self.give_at(index, key, tick);
                return NacellePeerRateLimitResult::Allowed;
            }
            offset += 1;
        }
        NacellePeerRateLimitResult::TableFull
    }

    /// Whether one more peer may be remembered.
    fn has_free_entry(&self) -> (free: bool)
        ensures
            free == (self@.active < self@.capacity),
    {
        self.active_entries < self.capacity
    }

    /// Reserves the place of `key` unless it is reserved already.
    pub fn try_reserve_key(&mut self, key: u64) -> (reservation: Option<KeyReservation>)
        requires
            old(self)@.wf(),
            key != 0,
        ensures
            final(self)@.wf(),
            final(self).origin() == old(self).origin(),
            ({
                let place = home_slot(key, old(self)@.reservations.len());
                match reservation {
                    Some(held) => old(self)@.reservations[place] == 0 && held.place() == place
                        && final(self)@ == old(self)@.reserved(place, key),
                    None => old(self)@.reservations[place] != 0 && final(self)@ == old(self)@,
                }
            }),
    {
        let index = home(key, self.key_reservations.len());
        if self.key_reservations[index] != 0 {
            return None;
        }
        self.key_reservations.set(index, key);
        Some(KeyReservation { index })
    }

    /// Gives a reservation back.
    pub fn release_key(&mut self, reservation: KeyReservation)
        requires
            old(self)@.wf(),
            reservation.place() < old(self)@.reservations.len(),
        ensures
            final(self)@.wf(),
            final(self).origin() == old(self).origin(),
            final(self)@ == old(self)@.unreserved(reservation.place()),
    {
        self.key_reservations.set(reservation.index, 0);
    }

    /// Starts a read of the entry in slot `index`.
    pub fn acquire_reader(&mut self, index: usize) -> (reader: Option<SlotReader>)
        requires
            old(self)@.wf(),
            index < old(self)@.slots.len(),
        ensures
            final(self)@.wf(),
            final(self).origin() == old(self).origin(),
            ({
                let slot = old(self)@.slots[index as int];
                match reader {
                    Some(held) => slot.readable() && held.slot() == index && final(self)@
                        == old(self)@.read_started(index as int),
                    None => !slot.readable() && final(self)@ == old(self)@,
                }
            }),
    {
        let mut slot = self.slots[index];
        assert(slot@ == self@.slots[index as int]);
        if !slot.readable() {
            return None;
        }
        slot.state = with_reader(slot.state);
        self.slots.set(index, slot);
        proof {
            assert(self@.slots =~= old(self)@.slots.update(index as int, slot@));
            lemma_used_slots_update(old(self)@.slots, index as int, slot@);
        }
        Some(SlotReader { index })
    }

    /// Ends a read.
    pub fn release_reader(&mut self, reader: SlotReader)
        requires
            old(self)@.wf(),
            reader.slot() < old(self)@.slots.len(),
            old(self)@.slots[reader.slot()].readers > 0,
        ensures
            final(self)@.wf(),
            final(self).origin() == old(self).origin(),
            final(self)@ == old(self)@.read_ended(reader.slot()),
    {
        let index = reader.index;
        let mut slot = self.slots[index];
        assert(slot@ == self@.slots[index as int]);
        slot.state = without_reader(slot.state);
        self.slots.set(index, slot);
        proof {
            assert(self@.slots =~= old(self)@.slots.update(index as int, slot@));
            lemma_used_slots_update(old(self)@.slots, index as int, slot@);
        }
    }
}

/// A limiter's times and hashes come from its start and its hasher alone, which it
/// keeps whatever it is asked.
pub proof fn law_times_and_hashes_come_from_the_origin(
    limiter: NacellePeerRateLimiter,
    later: NacellePeerRateLimiter,
)
    requires
        later.origin() == limiter.origin(),
    ensures
        forall|peer: IpAddr, hash: u64| #[trigger]
            later.places(peer, hash) == limiter.places(peer, hash),
        forall|tick: u32| #[trigger] later.ticks(tick) == limiter.ticks(tick),
{
}

} // verus!

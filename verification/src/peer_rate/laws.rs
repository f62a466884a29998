//! What a limiter keeps over any number of attempts.
use vstd::prelude::*;

use super::word::{
    expired, rate_count, rate_window, retention_over, word_generation, word_readers, word_status,
};
use super::{
    home_slot, key_of, probe_count, probe_slot, rates, NacellePeerRateLimitResult, PeerRateKey, PeerSlotState,
    PeerTable, Probe,
};
use crate::address::IpAddr;

verus! {

/// One attempt: whose event it is, its budget and when it comes.
pub struct PeerEvent {
    pub key: PeerRateKey,
    pub limit: nat,
    pub tick: nat,
}

/// The table after a run of attempts, each placed by its peer's hash.
pub open spec fn after(
    table: PeerTable,
    events: Seq<PeerEvent>,
    hash: spec_fn(PeerRateKey) -> u64,
) -> PeerTable
    decreases events.len(),
{
    if events.len() == 0 {
        table
    } else {
        let event = events.last();
        after(table, events.drop_last(), hash).attempt(
            event.key,
            event.limit,
            event.tick,
            hash(event.key),
        ).0
    }
}

/// How many of a run's attempts by `key` at `tick` were admitted.
pub open spec fn admissions(
    table: PeerTable,
    events: Seq<PeerEvent>,
    hash: spec_fn(PeerRateKey) -> u64,
    key: PeerRateKey,
    tick: nat,
) -> nat
    decreases events.len(),
{
    if events.len() == 0 {
        0
    } else {
        let event = events.last();
        let earlier = events.drop_last();
        let answer = after(table, earlier, hash).attempt(
            event.key,
            event.limit,
            event.tick,
            hash(event.key),
        ).1;
        admissions(table, earlier, hash, key, tick) + if event.key == key && event.tick == tick
            && answer == NacellePeerRateLimitResult::Allowed {
            1nat
        } else {
            0nat
        }
    }
}

/// Whether the clock of a run never goes back.
pub open spec fn in_order(events: Seq<PeerEvent>) -> bool {
    &&& forall|i: int, j: int|
        0 <= i <= j < events.len() ==> (#[trigger] events[i]).tick <= (#[trigger] events[j]).tick
    &&& forall|i: int| 0 <= i < events.len() ==> (#[trigger] events[i]).tick <= u32::MAX
}

/// Whether slot `index` can be reached from `start`.
pub open spec fn in_reach(start: int, index: int, len: nat) -> bool {
    (if index >= start {
        index - start
    } else {
        index - start + len
    }) < probe_count(len)
}

impl PeerTable {
    /// Whether no slot has as many readers as it can count.
    pub open spec fn unsaturated(self) -> bool {
        forall|i: int|
            0 <= i < self.slots.len() && (#[trigger] self.slots[i]).occupied()
                ==> self.slots[i].readable()
    }

    /// Whether every peer is remembered at most once.
    pub open spec fn distinct(self) -> bool {
        forall|i: int, j: int|
            0 <= i < self.slots.len() && 0 <= j < self.slots.len() && (
            #[trigger] self.slots[i]).occupied() && (#[trigger] self.slots[j]).occupied()
                && self.slots[i].key == self.slots[j].key ==> i == j
    }

    /// Whether every entry can be reached from its peer's hash.
    pub open spec fn placed_by(self, hash: spec_fn(PeerRateKey) -> u64) -> bool {
        forall|i: int|
            0 <= i < self.slots.len() && (#[trigger] self.slots[i]).occupied() ==> in_reach(
                home_slot(hash(self.slots[i].key), self.slots.len()),
                i,
                self.slots.len(),
            )
    }

    /// Whether no entry counts in a window after `now`.
    pub open spec fn up_to(self, now: nat) -> bool {
        forall|i: int|
            0 <= i < self.slots.len() && (#[trigger] self.slots[i]).occupied()
                ==> self.slots[i].window <= now
    }

    /// What every run of attempts keeps.
    pub open spec fn orderly(self, hash: spec_fn(PeerRateKey) -> u64, now: nat) -> bool {
        &&& self.wf()
        &&& self.unsaturated()
        &&& self.distinct()
        &&& self.placed_by(hash)
        &&& self.up_to(now)
    }

    /// Whether slot `index` is the entry of `key`.
    pub open spec fn holds(self, index: int, key: PeerRateKey) -> bool {
        0 <= index < self.slots.len() && self.slots[index].occupied() && self.slots[index].key
            == key
    }

    /// The events of `key` that are counted in window `tick`.
    pub open spec fn used(self, key: PeerRateKey, tick: nat) -> nat {
        if exists|i: int| self.holds(i, key) && self.slots[i].window == tick {
            let index = choose|i: int| self.holds(i, key) && self.slots[i].window == tick;
            self.slots[index].count
        } else {
            0
        }
    }
}

proof fn lemma_used(table: PeerTable, index: int, key: PeerRateKey, tick: nat)
    requires
        table.distinct(),
        table.holds(index, key),
    ensures
        table.used(key, tick) == if table.slots[index].window == tick {
            table.slots[index].count
        } else {
            0
        },
{
    if exists|i: int| table.holds(i, key) && table.slots[i].window == tick {
        let other = choose|i: int| table.holds(i, key) && table.slots[i].window == tick;
        assert(table.slots[other].occupied() && table.slots[index].occupied());
    }
}

/// A search that names a slot names one that holds the peer.
proof fn lemma_known_slot(table: PeerTable, key: PeerRateKey, start: int, offset: int)
    requires
        0 <= start < table.slots.len(),
        0 <= offset,
    ensures
        table.known_slot(key, start, offset) matches Some(index) ==> 0 <= index < table.slots.len()
            && table.slots[index].answers(key),
    decreases probe_count(table.slots.len()) - offset,
{
    if offset < probe_count(table.slots.len()) {
        lemma_known_slot(table, key, start, offset + 1);
    }
}

/// A search that names no slot passes by none that holds the peer.
proof fn lemma_unknown(table: PeerTable, key: PeerRateKey, start: int, offset: int, place: int)
    requires
        0 <= start < table.slots.len(),
        0 <= offset <= place < probe_count(table.slots.len()),
        table.known_slot(key, start, offset) is None,
    ensures
        !table.slots[probe_slot(start, place, table.slots.len() as int)].answers(key),
    decreases probe_count(table.slots.len()) - offset,
{
    if offset < place {
        lemma_unknown(table, key, start, offset + 1, place);
    }
}

/// What is true of the slot that the search for a free one names.
proof fn lemma_cold_slot(table: PeerTable, key: PeerRateKey, tick: nat, start: int, offset: int)
    requires
        table.wf(),
        0 <= start < table.slots.len(),
        0 <= offset,
    ensures
        match table.cold_slot(key, tick, start, offset) {
            Probe::Known(index) => 0 <= index < table.slots.len() && table.slots[index].answers(
                key,
            ),
            Probe::Free(index) => 0 <= index < table.slots.len() && in_reach(
                start,
                index,
                table.slots.len(),
            ) && (if table.slots[index].status == 0 {
                table.active < table.capacity
            } else {
                retention_over(table.slots[index].last_seen, tick) && table.slots[index].readers
                    == 0
            }),
            Probe::Exhausted => true,
        },
    decreases probe_count(table.slots.len()) - offset,
{
    if offset < probe_count(table.slots.len()) {
        lemma_cold_slot(table, key, tick, start, offset + 1);
        let index = probe_slot(start, offset, table.slots.len() as int);
        assert(super::slot_wf(table.slots[index]));
    }
}

/// In an orderly table, a search from the peer's hash finds its entry.
proof fn lemma_search_is_complete(
    table: PeerTable,
    hash: spec_fn(PeerRateKey) -> u64,
    now: nat,
    key: PeerRateKey,
    index: int,
)
    requires
        table.orderly(hash, now),
        table.holds(index, key),
    ensures
        table.known_slot(key, home_slot(hash(key), table.slots.len()), 0) is Some,
{
    let len = table.slots.len();
    let start = home_slot(hash(key), len);
    if table.known_slot(key, start, 0) is None {
        let place = if index >= start {
            index - start
        } else {
            index - start + len
        };
        assert(in_reach(start, index, len));
        lemma_unknown(table, key, start, 0, place);
        assert(table.slots[index].readable());
    }
}

/// Giving a free slot to a new peer keeps the table orderly, and every other
/// peer's count in the current window.
proof fn lemma_give(
    table: PeerTable,
    hash: spec_fn(PeerRateKey) -> u64,
    now: nat,
    key: PeerRateKey,
    tick: nat,
    index: int,
    other: PeerRateKey,
)
    requires
        table.orderly(hash, now),
        now <= tick <= u32::MAX,
        0 <= index < table.slots.len(),
        in_reach(home_slot(hash(key), table.slots.len()), index, table.slots.len()),
        table.slots[index].status == 0 ==> table.active < table.capacity,
        table.slots[index].status != 0 ==> retention_over(table.slots[index].last_seen, tick),
        forall|i: int| !table.holds(i, key),
    ensures
        table.give_slot(index, key, tick).orderly(hash, tick),
        table.used(key, tick) == 0,
        table.give_slot(index, key, tick).used(key, tick) == 1,
        other != key ==> table.give_slot(index, key, tick).used(other, tick) == table.used(
            other,
            tick,
        ),
{
    let next = table.give_slot(index, key, tick);
    let slot = table.slots[index].given_to(key, tick);
    super::lemma_used_slots_update(table.slots, index, slot);
    assert(super::slot_wf(table.slots[index]));
    assert forall|i: int| 0 <= i < next.slots.len() implies super::slot_wf(#[trigger] next.slots[i]) by {
        if i != index {
            assert(super::slot_wf(table.slots[i]));
        }
    }
    assert(next.wf());
    assert(next.unsaturated()) by {
        assert forall|i: int|
            0 <= i < next.slots.len() && (#[trigger] next.slots[i]).occupied() implies next.slots[i].readable() by {
            if i != index {
                assert(table.slots[i].readable());
            }
        }
    }
    assert(next.distinct()) by {
        assert forall|i: int, j: int|
            0 <= i < next.slots.len() && 0 <= j < next.slots.len() && (
            #[trigger] next.slots[i]).occupied() && (#[trigger] next.slots[j]).occupied()
                && next.slots[i].key == next.slots[j].key implies i == j by {
            if i != index && j != index {
                assert(table.slots[i].occupied() && table.slots[j].occupied());
            } else if i != index {
                assert(!table.holds(i, key));
            } else if j != index {
                assert(!table.holds(j, key));
            }
        }
    }
    assert(next.placed_by(hash)) by {
        assert forall|i: int| 0 <= i < next.slots.len() && (#[trigger] next.slots[i]).occupied() implies in_reach(
            home_slot(hash(next.slots[i].key), next.slots.len()),
            i,
            next.slots.len(),
        ) by {
            if i != index {
                assert(table.slots[i].occupied());
            }
        }
    }
    assert(next.up_to(tick)) by {
        assert forall|i: int|
            0 <= i < next.slots.len() && (#[trigger] next.slots[i]).occupied() implies next.slots[i].window <= tick by {
            if i != index {
                assert(table.slots[i].occupied());
            }
        }
    }
    assert(next.holds(index, key));
    lemma_used(next, index, key, tick);
    if other != key {
        if exists|i: int| table.holds(i, other) {
            let held = choose|i: int| table.holds(i, other);
            lemma_used(table, held, other, tick);
            if held == index {
                assert(table.slots[index].window <= now);
                assert forall|i: int| !next.holds(i, other) by {
                    if next.holds(i, other) {
                        assert(table.slots[i].occupied() && table.slots[held].occupied());
                    }
                }
            } else {
                assert(next.holds(held, other));
                lemma_used(next, held, other, tick);
            }
        } else {
            assert forall|i: int| !next.holds(i, other) by {
                assert(!table.holds(i, other));
            }
        }
    }
}

/// Counting an event keeps the table orderly, and every other peer's count.
proof fn lemma_count(
    table: PeerTable,
    hash: spec_fn(PeerRateKey) -> u64,
    now: nat,
    key: PeerRateKey,
    limit: nat,
    tick: nat,
    index: int,
    other: PeerRateKey,
)
    requires
        table.orderly(hash, now),
        now <= tick <= u32::MAX,
        limit > 0,
        table.holds(index, key),
    ensures
        ({
            let (next, answer) = table.count_event(index, limit, tick);
            let allowed = answer == NacellePeerRateLimitResult::Allowed;
            &&& next.orderly(hash, tick)
            &&& next.used(key, tick) == table.used(key, tick) + if allowed {
                1nat
            } else {
                0nat
            }
            &&& allowed ==> table.used(key, tick) < limit
            &&& other != key ==> next.used(other, tick) == table.used(other, tick)
        }),
{
    let (next, answer) = table.count_event(index, limit, tick);
    let slot = next.slots[index];
    super::lemma_used_slots_update(table.slots, index, slot);
    assert(super::slot_wf(table.slots[index]));
    assert forall|i: int| 0 <= i < next.slots.len() implies super::slot_wf(#[trigger] next.slots[i]) by {
        if i != index {
            assert(super::slot_wf(table.slots[i]));
        }
    }
    assert(next.wf());
    assert(forall|i: int|
        0 <= i < next.slots.len() ==> (#[trigger] next.slots[i]).key == table.slots[i].key
            && next.slots[i].occupied() == table.slots[i].occupied() && next.slots[i].readers
            == table.slots[i].readers);
    assert(next.distinct());
    assert(next.placed_by(hash)) by {
        assert forall|i: int| 0 <= i < next.slots.len() && (#[trigger] next.slots[i]).occupied() implies in_reach(
            home_slot(hash(next.slots[i].key), next.slots.len()),
            i,
            next.slots.len(),
        ) by {
            assert(table.slots[i].occupied());
        }
    }
    assert(next.unsaturated()) by {
        assert forall|i: int|
            0 <= i < next.slots.len() && (#[trigger] next.slots[i]).occupied() implies next.slots[i].readable() by {
            assert(table.slots[i].readable());
        }
    }
    assert(next.up_to(tick)) by {
        assert forall|i: int|
            0 <= i < next.slots.len() && (#[trigger] next.slots[i]).occupied() implies next.slots[i].window <= tick by {
            assert(table.slots[i].occupied());
        }
    }
    assert(next.holds(index, key));
    lemma_used(table, index, key, tick);
    lemma_used(next, index, key, tick);
    if other != key {
        if exists|i: int| table.holds(i, other) {
            let held = choose|i: int| table.holds(i, other);
            assert(next.holds(held, other));
            lemma_used(table, held, other, tick);
            lemma_used(next, held, other, tick);
        } else {
            assert forall|i: int| !next.holds(i, other) by {
                assert(!table.holds(i, other));
            }
        }
    }
}

/// Raising the clock alone keeps a table orderly.
proof fn lemma_later(table: PeerTable, hash: spec_fn(PeerRateKey) -> u64, now: nat, tick: nat)
    requires
        table.orderly(hash, now),
        now <= tick,
    ensures
        table.orderly(hash, tick),
{
    assert forall|i: int|
        0 <= i < table.slots.len() && (#[trigger] table.slots[i]).occupied() implies table.slots[i].window <= tick by {
        assert(table.slots[i].window <= now);
    }
}

/// One attempt keeps the table orderly. It moves the attempting peer's count in
/// the current window up by one exactly if it is admitted, which it is only
/// below the limit, and leaves every other peer's count alone.
pub proof fn law_attempt_counts_its_peer_alone(
    table: PeerTable,
    hash: spec_fn(PeerRateKey) -> u64,
    now: nat,
    event: PeerEvent,
    other: PeerRateKey,
)
    requires
        table.orderly(hash, now),
        now <= event.tick <= u32::MAX,
    ensures
        ({
            let (next, answer) = table.attempt(
                event.key,
                event.limit,
                event.tick,
                hash(event.key),
            );
            let allowed = answer == NacellePeerRateLimitResult::Allowed;
            &&& next.orderly(hash, event.tick)
            &&& next.used(event.key, event.tick) == table.used(event.key, event.tick) + if allowed {
                1nat
            } else {
                0nat
            }
            &&& allowed ==> table.used(event.key, event.tick) < event.limit
            &&& other != event.key ==> next.used(other, event.tick) == table.used(other, event.tick)
        }),
{
    let key = event.key;
    let start = home_slot(hash(key), table.slots.len());
    lemma_later(table, hash, now, event.tick);
    if event.limit > 0 {
        lemma_known_slot(table, key, start, 0);
        match table.known_slot(key, start, 0) {
            Some(index) => {
                lemma_count(table, hash, now, key, event.limit, event.tick, index, other);
            },
            None => {
                assert forall|i: int| !table.holds(i, key) by {
                    if table.holds(i, key) {
                        lemma_search_is_complete(table, hash, now, key, i);
                    }
                }
                lemma_cold_slot(table, key, event.tick, start, 0);
                match table.cold_slot(key, event.tick, start, 0) {
                    Probe::Known(index) => {
                        assert(table.holds(index, key));
                    },
                    Probe::Free(index) => {
                        lemma_give(table, hash, now, key, event.tick, index, other);
                    },
                    Probe::Exhausted => {},
                }
            },
        }
    }
}

/// A run keeps the table orderly up to its last tick.
proof fn lemma_run(table: PeerTable, events: Seq<PeerEvent>, hash: spec_fn(PeerRateKey) -> u64)
    requires
        table.orderly(hash, 0),
        in_order(events),
    ensures
        after(table, events, hash).orderly(
            hash,
            if events.len() == 0 {
                0
            } else {
                events.last().tick
            },
        ),
    decreases events.len(),
{
    if events.len() > 0 {
        let earlier = events.drop_last();
        assert(in_order(earlier)) by {
            assert(forall|i: int| 0 <= i < earlier.len() ==> earlier[i] == events[i]);
        }
        lemma_run(table, earlier, hash);
        let now = if earlier.len() == 0 {
            0
        } else {
            earlier.last().tick
        };
        if earlier.len() > 0 {
            assert(events[events.len() - 2].tick <= events[events.len() - 1].tick);
        }
        law_attempt_counts_its_peer_alone(
            after(table, earlier, hash),
            hash,
            now,
            events.last(),
            events.last().key,
        );
    }
}

/// No peer is admitted more often in one window than its limit: over any run of
/// attempts by any peers on a table without entries, with a clock that does not
/// go back, the admissions of `key` at `tick` stay within every bound on the
/// limits that its attempts at `tick` were made under.
pub proof fn law_window_budget(
    table: PeerTable,
    events: Seq<PeerEvent>,
    hash: spec_fn(PeerRateKey) -> u64,
    key: PeerRateKey,
    tick: nat,
    bound: nat,
)
    requires
        table.wf(),
        table.active == 0,
        in_order(events),
        forall|i: int|
            0 <= i < events.len() && (#[trigger] events[i]).key == key && events[i].tick == tick
                ==> events[i].limit <= bound,
    ensures
        admissions(table, events, hash, key, tick) <= bound,
{
    lemma_no_entry(table.slots);
    assert(table.orderly(hash, 0));
    lemma_budget(table, events, hash, key, tick, bound);
}

/// A table without used slots has no occupied one.
proof fn lemma_no_entry(slots: Seq<PeerSlotState>)
    requires
        super::used_slots(slots) == 0,
    ensures
        forall|i: int| 0 <= i < slots.len() ==> (#[trigger] slots[i]).status == 0,
    decreases slots.len(),
{
    if slots.len() > 0 {
        lemma_no_entry(slots.drop_last());
        assert forall|i: int| 0 <= i < slots.len() implies (#[trigger] slots[i]).status == 0 by {
            if i < slots.len() - 1 {
                assert(slots.drop_last()[i].status == 0);
            }
        }
    }
}

proof fn lemma_budget(
    table: PeerTable,
    events: Seq<PeerEvent>,
    hash: spec_fn(PeerRateKey) -> u64,
    key: PeerRateKey,
    tick: nat,
    bound: nat,
)
    requires
        table.orderly(hash, 0),
        forall|i: int| 0 <= i < table.slots.len() ==> !(#[trigger] table.slots[i]).occupied(),
        in_order(events),
        forall|i: int|
            0 <= i < events.len() && (#[trigger] events[i]).key == key && events[i].tick == tick
                ==> events[i].limit <= bound,
    ensures
        admissions(table, events, hash, key, tick) <= bound,
        events.len() > 0 && events.last().tick == tick ==> admissions(
            table,
            events,
            hash,
            key,
            tick,
        ) == after(table, events, hash).used(key, tick),
        events.len() > 0 && events.last().tick < tick ==> admissions(
            table,
            events,
            hash,
            key,
            tick,
        ) == 0,
    decreases events.len(),
{
    if events.len() > 0 {
        let earlier = events.drop_last();
        let event = events.last();
        let before = after(table, earlier, hash);
        assert(forall|i: int| 0 <= i < earlier.len() ==> earlier[i] == events[i]);
        assert(in_order(earlier));
        lemma_budget(table, earlier, hash, key, tick, bound);
        lemma_run(table, earlier, hash);
        let now = if earlier.len() == 0 {
            0
        } else {
            earlier.last().tick
        };
        if earlier.len() > 0 {
            assert(events[events.len() - 2].tick <= events[events.len() - 1].tick);
        }
        law_attempt_counts_its_peer_alone(before, hash, now, event, key);
        if event.tick == tick {
            assert(events[events.len() - 1] == event);
            if earlier.len() == 0 || earlier.last().tick < tick {
                assert(before.used(key, tick) == 0) by {
                    assert forall|i: int| before.holds(i, key) implies before.slots[i].window
                        != tick by {
                        assert(before.slots[i].occupied());
                    }
                }
            }
        }
    }
}

/// A peer keeps its entry for the whole retention time: no other peer's attempt
/// changes the entry before that time is over.
pub proof fn law_entries_outlive_other_peers(
    table: PeerTable,
    event: PeerEvent,
    hash: u64,
    index: int,
)
    requires
        table.wf(),
        0 <= index < table.slots.len(),
        table.slots[index].occupied(),
        table.slots[index].key != event.key,
        !retention_over(table.slots[index].last_seen, event.tick),
    ensures
        table.attempt(event.key, event.limit, event.tick, hash).0.slots[index]
            == table.slots[index],
{
    let start = home_slot(hash, table.slots.len());
    lemma_known_slot(table, event.key, start, 0);
    lemma_cold_slot(table, event.key, event.tick, start, 0);
}

/// An entry that is being read is not given away, however long ago its peer was
/// seen.
pub proof fn law_entries_in_use_are_kept(table: PeerTable, event: PeerEvent, hash: u64, index: int)
    requires
        table.wf(),
        0 <= index < table.slots.len(),
        table.slots[index].occupied(),
        table.slots[index].key != event.key,
        table.slots[index].readers > 0,
    ensures
        table.attempt(event.key, event.limit, event.tick, hash).0.slots[index]
            == table.slots[index],
{
    let start = home_slot(hash, table.slots.len());
    lemma_known_slot(table, event.key, start, 0);
    lemma_cold_slot(table, event.key, event.tick, start, 0);
}

/// While the place of a peer's hash is reserved, the peer is turned away unless
/// the table remembers it, and nothing changes.
pub proof fn law_reserved_places_fail_closed(table: PeerTable, event: PeerEvent, hash: u64)
    requires
        table.wf(),
        event.limit > 0,
        table.reservations[home_slot(super::reservation_key(hash), table.slots.len())] != 0,
        forall|i: int| 0 <= i < table.slots.len() ==> !(#[trigger] table.slots[i]).answers(event.key),
    ensures
        table.attempt(event.key, event.limit, event.tick, hash) == (
            table,
            NacellePeerRateLimitResult::TableFull,
        ),
{
    lemma_known_slot(table, event.key, home_slot(hash, table.slots.len()), 0);
}

/// A full table turns new peers away: while it is at its capacity and no entry's
/// retention is over, an attempt by a peer that it does not remember is answered
/// with `TableFull` and changes nothing.
pub proof fn law_full_table_rejects_new_peers(table: PeerTable, event: PeerEvent, hash: u64)
    requires
        table.wf(),
        table.active == table.capacity,
        event.limit > 0,
        forall|i: int|
            0 <= i < table.slots.len() && (#[trigger] table.slots[i]).occupied()
                ==> table.slots[i].key != event.key && !retention_over(
                table.slots[i].last_seen,
                event.tick,
            ),
    ensures
        table.attempt(event.key, event.limit, event.tick, hash) == (
            table,
            NacellePeerRateLimitResult::TableFull,
        ),
{
    let start = home_slot(hash, table.slots.len());
    lemma_known_slot(table, event.key, start, 0);
    lemma_cold_slot(table, event.key, event.tick, start, 0);
}

/// The first event on a table without entries is admitted, unless its place is
/// reserved.
pub proof fn law_first_event_is_admitted(
    table: PeerTable,
    hash: spec_fn(PeerRateKey) -> u64,
    event: PeerEvent,
)
    requires
        table.wf(),
        table.active == 0,
        event.limit > 0,
        table.reservations[home_slot(
            super::reservation_key(hash(event.key)),
            table.slots.len(),
        )] == 0,
    ensures
        table.attempt(event.key, event.limit, event.tick, hash(event.key)).1
            == NacellePeerRateLimitResult::Allowed,
{
    let start = home_slot(hash(event.key), table.slots.len());
    lemma_no_entry(table.slots);
    lemma_known_slot(table, event.key, start, 0);
    assert(table.slots[probe_slot(start, 0, table.slots.len() as int)].status == 0);
}

/// No two addresses share a key: an IPv4 address and the IPv6 address that maps
/// it are limited separately.
pub proof fn law_addresses_have_distinct_keys(left: IpAddr, right: IpAddr)
    requires
        left != right,
    ensures
        key_of(left) != key_of(right),
{
    match (left, right) {
        (IpAddr::V6(a), IpAddr::V6(b)) => {
            assert(a / 0x1_0000_0000_0000_0000 <= 0xffff_ffff_ffff_ffff);
            assert(b / 0x1_0000_0000_0000_0000 <= 0xffff_ffff_ffff_ffff);
        },
        _ => {},
    }
}

/// An attempt by a peer that the table holds is answered by what was counted in
/// its own window alone. In any window but the one it was last counted in, it is
/// the first and allowed, however long ago the last one was; within that window
/// it is allowed while fewer were counted than the limit, and counts as one more;
/// from then on it is refused and counts nothing. No other entry changes.
pub proof fn law_known_peers_are_admitted_below_their_limit(
    table: PeerTable,
    hash: spec_fn(PeerRateKey) -> u64,
    now: nat,
    key: PeerRateKey,
    index: int,
    limit: nat,
    tick: nat,
)
    requires
        table.orderly(hash, now),
        now <= tick <= u32::MAX,
        table.holds(index, key),
        limit > 0,
    ensures
        ({
            let (next, answer) = table.attempt(key, limit, tick, hash(key));
            let before = table.slots[index];
            let entry = next.slots[index];
            &&& next.holds(index, key)
            &&& entry.window == tick
            &&& entry.last_seen == tick
            &&& before.window != tick ==> answer == NacellePeerRateLimitResult::Allowed
                && entry.count == 1
            &&& before.window == tick && before.count < limit && before.count < u32::MAX ==> answer
                == NacellePeerRateLimitResult::Allowed && entry.count == before.count + 1
            &&& before.window == tick && (before.count >= limit || before.count >= u32::MAX)
                ==> answer == NacellePeerRateLimitResult::RateLimited && entry.count
                == before.count
            &&& table.used(key, tick) < limit && table.used(key, tick) < u32::MAX ==> answer
                == NacellePeerRateLimitResult::Allowed
            &&& next.slots.len() == table.slots.len()
            &&& forall|i: int|
                0 <= i < table.slots.len() && i != index ==> #[trigger] next.slots[i]
                    == table.slots[i]
            &&& next.active == table.active
            &&& next.capacity == table.capacity
            &&& next.reservations == table.reservations
        }),
{
    let start = home_slot(hash(key), table.slots.len());
    lemma_search_is_complete(table, hash, now, key, index);
    lemma_known_slot(table, key, start, 0);
    let found = table.known_slot(key, start, 0)->0;
    assert(table.slots[found].occupied() && table.slots[index].occupied());
    assert(found == index);
    lemma_used(table, index, key, tick);
}

/// The smaller of two numbers.
spec fn smaller(left: nat, right: nat) -> nat {
    if left < right {
        left
    } else {
        right
    }
}

/// A peer that makes `events.len()` attempts in one window, of which nothing was
/// counted yet, is allowed as many of them as its limit says, and all of them
/// where they are no more.
pub proof fn law_peers_get_their_whole_budget(
    table: PeerTable,
    hash: spec_fn(PeerRateKey) -> u64,
    now: nat,
    key: PeerRateKey,
    index: int,
    limit: nat,
    tick: nat,
    events: Seq<PeerEvent>,
)
    requires
        table.orderly(hash, now),
        now <= tick <= u32::MAX,
        table.holds(index, key),
        0 < limit <= u32::MAX,
        table.slots[index].window != tick,
        forall|i: int|
            0 <= i < events.len() ==> #[trigger] events[i] == (PeerEvent { key, limit, tick }),
    ensures
        admissions(table, events, hash, key, tick) == if events.len() <= limit {
            events.len()
        } else {
            limit
        },
{
    lemma_whole_budget(table, hash, now, key, index, limit, tick, events);
}

/// What is counted after some attempts of one peer in one window.
proof fn lemma_whole_budget(
    table: PeerTable,
    hash: spec_fn(PeerRateKey) -> u64,
    now: nat,
    key: PeerRateKey,
    index: int,
    limit: nat,
    tick: nat,
    events: Seq<PeerEvent>,
)
    requires
        table.orderly(hash, now),
        now <= tick <= u32::MAX,
        table.holds(index, key),
        0 < limit <= u32::MAX,
        table.slots[index].window != tick,
        forall|i: int|
            0 <= i < events.len() ==> #[trigger] events[i] == (PeerEvent { key, limit, tick }),
    ensures
        admissions(table, events, hash, key, tick) == smaller(events.len(), limit),
        after(table, events, hash).orderly(hash, tick),
        after(table, events, hash).holds(index, key),
        events.len() > 0 ==> after(table, events, hash).slots[index].window == tick && after(
            table,
            events,
            hash,
        ).slots[index].count == smaller(events.len(), limit),
        events.len() == 0 ==> after(table, events, hash) == table,
    decreases events.len(),
{
    if events.len() == 0 {
        lemma_later(table, hash, now, tick);
    } else {
        let earlier = events.drop_last();
        assert forall|i: int| 0 <= i < earlier.len() implies #[trigger] earlier[i] == (PeerEvent {
            key,
            limit,
            tick,
        }) by {
            assert(earlier[i] == events[i]);
        }
        lemma_whole_budget(table, hash, now, key, index, limit, tick, earlier);
        let middle = after(table, earlier, hash);
        assert(events.last() == events[events.len() - 1]);
        law_known_peers_are_admitted_below_their_limit(
            middle,
            hash,
            tick,
            key,
            index,
            limit,
            tick,
        );
        law_attempt_counts_its_peer_alone(middle, hash, tick, events.last(), key);
    }
}

/// The slot that lies `offset` places behind the one that a hash leads to, counted
/// around the end of a table of `len` slots.
pub open spec fn place_from(hash: u64, offset: int, len: nat) -> int {
    ((hash as usize) as int + offset) % (len as int)
}

impl PeerTable {
    /// Whether slot `index` may be given to a new peer: it was never used and there
    /// is capacity left, or its peer was not seen for a minute.
    pub open spec fn is_usable(self, index: int, tick: nat) -> bool {
        ||| self.slots[index].status == 0 && self.active < self.capacity
        ||| self.slots[index].status == 2 && tick >= self.slots[index].last_seen + 60
    }
}

/// The places of a hash are the slots that a search looks at.
proof fn lemma_place(hash: u64, offset: int, len: nat)
    requires
        0 <= offset < len,
    ensures
        probe_slot(home_slot(hash, len), offset, len as int) == place_from(hash, offset, len),
{
    let start = home_slot(hash, len);
    vstd::arithmetic::div_mod::lemma_add_mod_noop((hash as usize) as int, offset, len as int);
    vstd::arithmetic::div_mod::lemma_small_mod(offset as nat, len);
    if start + offset < len {
        vstd::arithmetic::div_mod::lemma_small_mod((start + offset) as nat, len);
    } else {
        vstd::arithmetic::div_mod::lemma_mod_sub_multiples_vanish(start + offset, len as int);
        vstd::arithmetic::div_mod::lemma_small_mod((start + offset - len) as nat, len);
    }
}

/// The search for a slot finds one exactly if one of those that are left to look
/// at is usable.
proof fn lemma_finds_usable(
    table: PeerTable,
    now: nat,
    key: PeerRateKey,
    tick: nat,
    hash: u64,
    offset: int,
)
    requires
        table.wf(),
        table.unsaturated(),
        table.up_to(now),
        now <= tick <= u32::MAX,
        0 <= offset,
        forall|i: int| !table.holds(i, key),
        forall|i: int| 0 <= i < table.slots.len() ==> (#[trigger] table.slots[i]).readers == 0,
    ensures
        ({
            let len = table.slots.len();
            match table.cold_slot(key, tick, home_slot(hash, len), offset) {
                Probe::Known(_) => false,
                Probe::Free(index) => 0 <= index < len && table.is_usable(index, tick),
                Probe::Exhausted => forall|i: int|
                    offset <= i < 64 && i < len ==> !table.is_usable(
                        #[trigger] place_from(hash, i, len),
                        tick,
                    ),
            }
        }),
    decreases 64 - offset,
{
    let len = table.slots.len();
    let start = home_slot(hash, len);
    if offset < probe_count(len) {
        let index = probe_slot(start, offset, len as int);
        lemma_place(hash, offset, len);
        let slot = table.slots[index];
        assert(super::slot_wf(slot));
        assert(slot.readers == 0);
        assert(!table.holds(index, key));
        if slot.status == 2 {
            assert(slot.occupied());
            assert(slot.last_seen <= tick);
        }
        lemma_finds_usable(table, now, key, tick, hash, offset + 1);
    }
}

/// A peer that the table does not remember is admitted exactly if one of the
/// sixty-four slots that its hash leads to, or of all where there are fewer, was
/// never used while there is capacity left, or holds a peer that was not seen for
/// a minute. It is then remembered with this one event, and otherwise nothing
/// changes.
pub proof fn law_new_peers_are_admitted_while_there_is_room(
    table: PeerTable,
    hash: spec_fn(PeerRateKey) -> u64,
    now: nat,
    key: PeerRateKey,
    limit: nat,
    tick: nat,
)
    requires
        table.orderly(hash, now),
        now <= tick <= u32::MAX,
        limit > 0,
        forall|i: int| !table.holds(i, key),
        forall|i: int| 0 <= i < table.slots.len() ==> (#[trigger] table.slots[i]).readers == 0,
        forall|i: int|
            0 <= i < table.reservations.len() ==> #[trigger] table.reservations[i] == 0,
    ensures
        ({
            let (next, answer) = table.attempt(key, limit, tick, hash(key));
            let room = exists|i: int|
                0 <= i < 64 && i < table.slots.len() && table.is_usable(
                    #[trigger] place_from(hash(key), i, table.slots.len()),
                    tick,
                );
            &&& room ==> answer == NacellePeerRateLimitResult::Allowed && next.used(key, tick) == 1
                && exists|index: int|
                table.is_usable(index, tick) && #[trigger] next.holds(index, key)
                    && next.slots[index].window == tick && next.slots[index].count == 1
            &&& !room ==> answer == NacellePeerRateLimitResult::TableFull && next == table
        }),
{
    let len = table.slots.len();
    let start = home_slot(hash(key), len);
    let event = PeerEvent { key, limit, tick };
    lemma_known_slot(table, key, start, 0);
    if table.known_slot(key, start, 0) is Some {
        assert(table.holds(table.known_slot(key, start, 0)->0, key));
    }
    let reserved = home_slot(super::reservation_key(hash(key)), len);
    assert(table.reservations[reserved] == 0);
    lemma_finds_usable(table, now, key, tick, hash(key), 0);
    lemma_cold_slot(table, key, tick, start, 0);
    law_attempt_counts_its_peer_alone(table, hash, now, event, key);
    let (next, answer) = table.attempt(key, limit, tick, hash(key));
    match table.cold_slot(key, tick, start, 0) {
        Probe::Free(index) => {
            lemma_reach(table, hash(key), index);
            lemma_give(table, hash, now, key, tick, index, key);
            assert(next.holds(index, key));
        },
        _ => {},
    }
}

/// A slot in reach of a hash lies at one of its places.
proof fn lemma_reach(table: PeerTable, hash: u64, index: int)
    requires
        table.wf(),
        0 <= index < table.slots.len(),
        in_reach(home_slot(hash, table.slots.len()), index, table.slots.len()),
    ensures
        exists|i: int|
            0 <= i < 64 && i < table.slots.len() && #[trigger] place_from(
                hash,
                i,
                table.slots.len(),
            ) == index,
{
    let len = table.slots.len();
    let start = home_slot(hash, len);
    let offset = if index >= start {
        index - start
    } else {
        index - start + len
    };
    lemma_place(hash, offset, len);
    assert(place_from(hash, offset, len) == index);
}

/// Nothing is ever admitted under a limit of zero, and nothing is remembered.
pub proof fn law_a_limit_of_zero_admits_nothing(
    table: PeerTable,
    key: PeerRateKey,
    tick: nat,
    hash: u64,
)
    ensures
        table.attempt(key, 0, tick, hash) == (table, NacellePeerRateLimitResult::RateLimited),
{
}

/// A key holds its address: an IPv4 address in the low half, an IPv6 address in
/// both.
pub proof fn law_keys_hold_their_addresses(peer: IpAddr)
    ensures
        peer matches IpAddr::V4(bits) ==> key_of(peer).kind == 4 && key_of(peer).high == 0
            && key_of(peer).low == bits,
        peer matches IpAddr::V6(bits) ==> key_of(peer).kind == 6 && key_of(peer).high
            * 0x1_0000_0000_0000_0000 + key_of(peer).low == bits,
{
    if let IpAddr::V6(bits) = peer {
        assert(bits / 0x1_0000_0000_0000_0000 <= 0xffff_ffff_ffff_ffff);
    }
}

/// A state word is put together of its status, its readers and its generation, and
/// a rate word of its window and its count.
pub proof fn law_words_are_put_together_of_their_parts(state: u64, rate: u64)
    ensures
        word_status(state) < 4,
        word_readers(state) < 16384,
        word_status(state) + 4 * word_readers(state) + 65536 * word_generation(state) == state,
        rate_count(rate) < 0x1_0000_0000,
        rate_window(rate) * 0x1_0000_0000 + rate_count(rate) == rate,
{
}

/// A new table has room for as many peers as it was made for, and for one at
/// least, with two slots for each as far as they can be counted; all of them are
/// empty and none is reserved.
pub proof fn law_new_tables_are_empty(table: PeerTable, capacity: usize)
    requires
        table.is_unused(capacity),
    ensures
        table.capacity >= 1,
        capacity > 0 ==> table.capacity == capacity,
        2 * table.capacity <= usize::MAX ==> table.slots.len() == 2 * table.capacity,
        table.active == 0,
        forall|i: int| 0 <= i < table.slots.len() ==> (#[trigger] table.slots[i]).status == 0,
        forall|i: int|
            0 <= i < table.reservations.len() ==> #[trigger] table.reservations[i] == 0,
{
}

/// A limiter answers for the address of the peer, with its own limit and at the
/// given second: below the limit in that second the peer is allowed, at the limit it
/// is not, and with a limit of zero never.
pub proof fn law_limiters_answer_for_the_peer(
    before: PeerTable,
    hash: spec_fn(PeerRateKey) -> u64,
    now: nat,
    peer: IpAddr,
    index: int,
    limit: usize,
    tick: u32,
    after: PeerTable,
    answer: NacellePeerRateLimitResult,
)
    requires
        before.orderly(hash, now),
        now <= tick,
        before.holds(index, key_of(peer)),
        rates(before, peer, limit, tick, hash(key_of(peer)), after, answer),
    ensures
        limit == 0 ==> answer == NacellePeerRateLimitResult::RateLimited && after == before,
        limit > 0 && before.slots[index].window != tick ==> answer
            == NacellePeerRateLimitResult::Allowed && after.slots[index].count == 1,
        limit > 0 && before.slots[index].window == tick && before.slots[index].count < limit
            && before.slots[index].count < u32::MAX ==> answer
            == NacellePeerRateLimitResult::Allowed && after.slots[index].count
            == before.slots[index].count + 1,
        limit > 0 && before.slots[index].window == tick && before.slots[index].count >= limit
            ==> answer == NacellePeerRateLimitResult::RateLimited && after.slots[index].count
            == before.slots[index].count,
        limit > 0 ==> after.slots[index].window == tick,
{
    if limit > 0 {
        law_known_peers_are_admitted_below_their_limit(
            before,
            hash,
            now,
            key_of(peer),
            index,
            limit as nat,
            tick as nat,
        );
    }
}

/// Ending a read undoes starting it, and giving up a place undoes reserving it; either
/// changes nothing else.
pub proof fn law_reads_and_reservations_are_undone(
    table: PeerTable,
    index: int,
    place: int,
    key: u64,
)
    requires
        0 <= index < table.slots.len(),
        0 <= place < table.reservations.len(),
        table.reservations[place] == 0,
    ensures
        table.read_started(index).slots[index].readers == table.slots[index].readers + 1,
        table.read_started(index).read_ended(index) == table,
        table.reserved(place, key).reservations[place] == key,
        table.reserved(place, key).unreserved(place) == table,
        table.reserved(place, key).slots == table.slots,
        table.read_started(index).reservations == table.reservations,
{
    assert(table.read_started(index).read_ended(index).slots =~= table.slots);
    assert(table.reserved(place, key).unreserved(place).reservations =~= table.reservations);
}

/// An entry may be given away once a minute has passed since its peer was seen, on a
/// clock of seconds that begins anew after 2^32 of them.
pub proof fn law_entries_are_kept_for_a_minute(last_seen: u32, tick: u32, over: bool)
    requires
        call_ensures(expired, (last_seen, tick), over),
    ensures
        over <==> (tick - last_seen) % 0x1_0000_0000 >= 60,
        over == retention_over(last_seen as nat, tick as nat),
{
}

} // verus!

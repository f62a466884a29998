//! The packed words of one peer slot.
//!
//! A state word holds a two-bit status, a fourteen-bit count of active readers
//! and a generation. A rate word holds a window number and a count.
use vstd::prelude::*;

verus! {

pub const EMPTY: u64 = 0;

pub const WRITING: u64 = 1;

pub const OCCUPIED: u64 = 2;

const STATUS_MASK: u64 = 0b11;

const READERS_SHIFT: u64 = 2;

pub const READERS_INCREMENT: u64 = 4;

const READERS_MASK: u64 = 0xfffc;

const GENERATION_SHIFT: u64 = 16;

const GENERATION_MASK: u64 = 0xffff_ffff_ffff;

const RETENTION_SECONDS: u32 = 60;

/// The largest number of readers that a state word can count.
pub open spec fn reader_limit() -> nat {
    0x3fff
}

/// The number of distinct generations.
pub open spec fn generations() -> nat {
    0x1_0000_0000_0000
}

/// The status bits of a state word: 0 empty, 1 being written, 2 occupied.
pub open spec fn word_status(state: u64) -> nat {
    (state % 4) as nat
}

/// The active readers that a state word counts.
pub open spec fn word_readers(state: u64) -> nat {
    ((state / 4) % 0x4000) as nat
}

/// How often the slot has changed hands, modulo the number of generations.
pub open spec fn word_generation(state: u64) -> nat {
    (state / 0x1_0000) as nat
}

/// The window that a rate word counts in.
pub open spec fn rate_window(rate: u64) -> nat {
    (rate / 0x1_0000_0000) as nat
}

/// The events that a rate word has counted.
pub open spec fn rate_count(rate: u64) -> nat {
    (rate % 0x1_0000_0000) as nat
}

/// Seconds from `last_seen` to `tick` on a clock that wraps at 32 bits.
pub open spec fn ticks_since(last_seen: nat, tick: nat) -> int {
    if tick >= last_seen {
        tick - last_seen
    } else {
        tick - last_seen + 0x1_0000_0000
    }
}

/// Whether an entry last seen at `last_seen` may be given to another peer.
pub open spec fn retention_over(last_seen: nat, tick: nat) -> bool {
    ticks_since(last_seen, tick) >= 60
}

/// Packs a window number and a count.
pub fn pack_rate(window: u32, count: u32) -> (rate: u64)
    ensures
        rate_window(rate) == window,
        rate_count(rate) == count,
{
    let high: u64 = window as u64;
    let low: u64 = count as u64;
    let rate: u64 = (high << 32u64) | low;
    assert(rate / 0x1_0000_0000u64 == high && rate % 0x1_0000_0000u64 == low) by (bit_vector)
        requires
            rate == (high << 32u64) | low,
            high < 0x1_0000_0000u64,
            low < 0x1_0000_0000u64,
    ;
    rate
}

/// Unpacks a window number and a count.
pub fn unpack_rate(rate: u64) -> (parts: (u32, u32))
    ensures
        parts.0 == rate_window(rate),
        parts.1 == rate_count(rate),
{
    let high: u64 = rate >> 32u64;
    assert(high == rate / 0x1_0000_0000u64 && high < 0x1_0000_0000u64) by (bit_vector)
        requires
            high == rate >> 32u64,
    ;
    assert(rate as u32 as u64 == rate % 0x1_0000_0000u64) by (bit_vector);
    (high as u32, #[verifier::truncate] (rate as u32))
}

/// The status bits of a state word.
pub fn status(state: u64) -> (bits: u64)
    ensures
        bits == word_status(state),
        bits < 4,
{
    assert(state & 0b11u64 == state % 4u64) by (bit_vector);
    state & STATUS_MASK
}

/// The active readers of a slot.
pub fn readers(state: u64) -> (count: u64)
    ensures
        count == word_readers(state),
        count <= reader_limit(),
{
    assert((state & 0xfffcu64) >> 2u64 == (state / 4u64) % 0x4000u64) by (bit_vector);
    (state & READERS_MASK) >> READERS_SHIFT
}

/// The largest number of readers that a slot can have at once.
pub fn max_readers() -> (count: u64)
    ensures
        count == reader_limit(),
{
    assert(0xfffcu64 >> 2u64 == 0x3fffu64) by (bit_vector);
    READERS_MASK >> READERS_SHIFT
}

/// The generation that follows the one in `state`.
pub fn next_generation(state: u64) -> (generation: u64)
    ensures
        generation == (word_generation(state) + 1) % generations(),
{
    let current: u64 = (state >> GENERATION_SHIFT) & GENERATION_MASK;
    assert(current == state / 0x1_0000u64 && current <= 0xffff_ffff_ffffu64) by (bit_vector)
        requires
            current == (state >> 16u64) & 0xffff_ffff_ffffu64,
    ;
    let next: u64 = current + 1;
    assert(next & 0xffff_ffff_ffffu64 == next % 0x1_0000_0000_0000u64) by (bit_vector);
    next & GENERATION_MASK
}

/// A state word without readers.
pub fn with_status(generation: u64, status: u64) -> (state: u64)
    requires
        generation < generations(),
        status < 4,
    ensures
        word_status(state) == status,
        word_readers(state) == 0,
        word_generation(state) == generation,
{
    let state: u64 = (generation << GENERATION_SHIFT) | status;
    assert(state % 4u64 == status && (state / 4u64) % 0x4000u64 == 0u64 && state / 0x1_0000u64 == generation)
        by (bit_vector)
        requires
            state == (generation << 16u64) | status,
            generation < 0x1_0000_0000_0000u64,
            status < 4u64,
    ;
    state
}

/// The state word under which a slot is being written.
pub fn writer_state(state: u64) -> (writing: u64)
    ensures
        word_status(writing) == WRITING,
        word_readers(writing) == 0,
        word_generation(writing) == (word_generation(state) + 1) % generations(),
{
    with_status(next_generation(state), WRITING)
}

/// The state word with one more reader.
pub fn with_reader(state: u64) -> (held: u64)
    requires
        word_readers(state) < reader_limit(),
    ensures
        word_status(held) == word_status(state),
        word_readers(held) == word_readers(state) + 1,
        word_generation(held) == word_generation(state),
{
    assert(state <= 0xffff_ffff_ffff_fffb) by {
        assert(state > 0xffff_ffff_ffff_fffb ==> (state / 4) % 0x4000 == 0x3fff);
    }
    assert((state + 4) / 4 == state / 4 + 1);
    state + READERS_INCREMENT
}

/// The state word with one reader fewer.
pub fn without_reader(state: u64) -> (released: u64)
    requires
        word_readers(state) > 0,
    ensures
        word_status(released) == word_status(state),
        word_readers(released) == word_readers(state) - 1,
        word_generation(released) == word_generation(state),
{
    assert(state >= 4);
    assert((state - 4) / 4 == state / 4 - 1);
    state - READERS_INCREMENT
}

/// Whether an entry last seen at `last_seen` may be given to another peer.
pub fn expired(last_seen: u32, tick: u32) -> (over: bool)
    ensures
        over == retention_over(last_seen as nat, tick as nat),
{
    tick.wrapping_sub(last_seen) >= RETENTION_SECONDS
}

} // verus!

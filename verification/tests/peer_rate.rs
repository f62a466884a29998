use nacelle::address::IpAddr;
use nacelle::peer_rate::{tick_after, NacellePeerRateLimitResult, NacellePeerRateLimiter};

const RETENTION_SECONDS: u32 = 60;
const FIRST: IpAddr = IpAddr::V4(0x7f00_0001);
const SECOND: IpAddr = IpAddr::V4(0x7f00_0002);

fn attempt(
    limiter: &mut NacellePeerRateLimiter,
    peer: IpAddr,
    limit: usize,
    tick: u32,
) -> NacellePeerRateLimitResult {
    let hash = limiter.peer_hash(peer);
    limiter.try_acquire_at(peer, limit, tick, hash)
}

#[test]
fn limits_one_peer_within_one_window() {
    let mut limiter = NacellePeerRateLimiter::new(4);

    assert_eq!(
        attempt(&mut limiter, FIRST, 2, 7),
        NacellePeerRateLimitResult::Allowed
    );
    assert_eq!(
        attempt(&mut limiter, FIRST, 2, 7),
        NacellePeerRateLimitResult::Allowed
    );
    assert_eq!(
        attempt(&mut limiter, FIRST, 2, 7),
        NacellePeerRateLimitResult::RateLimited
    );
    assert_eq!(
        attempt(&mut limiter, FIRST, 2, 8),
        NacellePeerRateLimitResult::Allowed
    );
}

#[test]
fn full_table_rejects_new_peer_until_an_entry_expires() {
    let mut limiter = NacellePeerRateLimiter::new(1);

    assert_eq!(
        attempt(&mut limiter, FIRST, 1, 1),
        NacellePeerRateLimitResult::Allowed
    );
    assert_eq!(
        attempt(&mut limiter, SECOND, 1, 1),
        NacellePeerRateLimitResult::TableFull
    );
    assert_eq!(
        attempt(&mut limiter, SECOND, 1, RETENTION_SECONDS + 1),
        NacellePeerRateLimitResult::Allowed
    );
    assert_eq!(limiter.active_entries(), 1);
}

#[test]
fn expired_slot_is_not_replaced_while_a_reader_is_active() {
    let mut limiter = NacellePeerRateLimiter::new(1);

    assert_eq!(
        attempt(&mut limiter, FIRST, 1, 1),
        NacellePeerRateLimitResult::Allowed
    );

    let first_slot = (limiter.peer_hash(FIRST) as usize) % 2;
    let reader = limiter
        .acquire_reader(first_slot)
        .expect("initialized peer slot should acquire a reader");

    assert_eq!(
        attempt(&mut limiter, SECOND, 1, RETENTION_SECONDS + 1),
        NacellePeerRateLimitResult::TableFull
    );

    limiter.release_reader(reader);
    assert_eq!(
        attempt(&mut limiter, SECOND, 1, RETENTION_SECONDS + 1),
        NacellePeerRateLimitResult::Allowed
    );
}

#[test]
fn distinguishes_ipv4_from_ipv4_mapped_ipv6() {
    let mut limiter = NacellePeerRateLimiter::new(2);
    let ipv4 = IpAddr::V4(0x7f00_0001);
    let ipv6 = IpAddr::V6(0xffff_7f00_0001);

    assert_eq!(
        attempt(&mut limiter, ipv4, 1, 1),
        NacellePeerRateLimitResult::Allowed
    );
    assert_eq!(
        attempt(&mut limiter, ipv6, 1, 1),
        NacellePeerRateLimitResult::Allowed
    );
}

#[test]
fn same_key_reservation_exhaustion_fails_closed() {
    let mut limiter = NacellePeerRateLimiter::new(8);
    let reservation_key = limiter.peer_hash(FIRST).max(1);
    let reservation = limiter
        .try_reserve_key(reservation_key)
        .expect("test should reserve peer key");
    assert!(limiter.try_reserve_key(reservation_key).is_none());

    assert_eq!(
        attempt(&mut limiter, FIRST, 3, 1),
        NacellePeerRateLimitResult::TableFull
    );

    limiter.release_key(reservation);
    assert_eq!(
        attempt(&mut limiter, FIRST, 3, 1),
        NacellePeerRateLimitResult::Allowed
    );
}

#[test]
fn concurrent_admission_does_not_exceed_the_limit() {
    let mut limiter = NacellePeerRateLimiter::new(8);
    let results: Vec<_> = (0..8).map(|_| attempt(&mut limiter, FIRST, 3, 1)).collect();
    let allowed = results
        .iter()
        .filter(|&&result| result == NacellePeerRateLimitResult::Allowed)
        .count();
    assert_eq!(
        allowed, 3,
        "admitted {allowed} requests, exceeding limit 3: {results:?}"
    );
}

#[test]
fn a_limit_of_zero_admits_nobody() {
    let mut limiter = NacellePeerRateLimiter::new(2);
    assert_eq!(
        limiter.try_acquire(FIRST, 0),
        NacellePeerRateLimitResult::RateLimited
    );
    assert_eq!(limiter.active_entries(), 0);
}

#[test]
fn peers_have_separate_budgets() {
    let mut limiter = NacellePeerRateLimiter::new(16);
    for peer in 0..8_u32 {
        let peer = IpAddr::V4(peer);
        assert_eq!(
            attempt(&mut limiter, peer, 1, 5),
            NacellePeerRateLimitResult::Allowed
        );
        assert_eq!(
            attempt(&mut limiter, peer, 1, 5),
            NacellePeerRateLimitResult::RateLimited
        );
    }
    assert_eq!(limiter.active_entries(), 8);
    assert_eq!(limiter.capacity(), 16);
}

#[test]
fn a_table_has_room_for_one_peer_at_least() {
    assert_eq!(NacellePeerRateLimiter::new(0).capacity(), 1);
}

#[test]
fn the_clock_of_a_limiter_starts_with_it() {
    let mut limiter = NacellePeerRateLimiter::new(1);
    assert!(limiter.current_tick() < 5);
    assert_eq!(
        limiter.try_acquire(FIRST, 1),
        NacellePeerRateLimitResult::Allowed
    );
    assert_eq!(limiter.peer_hash(FIRST), limiter.peer_hash(FIRST));
    assert_ne!(limiter.peer_hash(FIRST), limiter.peer_hash(SECOND));
}

#[test]
fn ticks_wrap_at_thirty_two_bits() {
    assert_eq!(tick_after(59), 59);
    assert_eq!(tick_after(u64::from(u32::MAX)), u32::MAX);
    assert_eq!(tick_after(u64::from(u32::MAX) + 8), 7);
}

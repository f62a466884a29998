//! Shutdown and draining.
use vstd::prelude::*;

use crate::time::Duration;

verus! {

/// How long connections may finish their work after shutdown was requested, in
/// whole milliseconds.
#[derive(Debug)]
pub struct NacelleDrainDeadline {
    millis: u64,
}

/// The whole milliseconds of a span, as far as 64 bits count them.
pub open spec fn clamped_millis(span: nat) -> nat {
    if span / 1_000_000 > u64::MAX {
        u64::MAX as nat
    } else {
        span / 1_000_000
    }
}

/// What a deadline holds once it is set to `timeout`, whatever it held before.
pub open spec fn set_deadline(held: nat, timeout: nat) -> nat {
    clamped_millis(timeout)
}

/// What a deadline holds once it is set to each of `timeouts` in turn.
pub open spec fn set_in_turn(held: nat, timeouts: Seq<nat>) -> nat
    decreases timeouts.len(),
{
    if timeouts.len() == 0 {
        held
    } else {
        set_deadline(set_in_turn(held, timeouts.drop_last()), timeouts.last())
    }
}

impl View for NacelleDrainDeadline {
    type V = nat;

    closed spec fn view(&self) -> nat {
        self.millis as nat
    }
}

impl Default for NacelleDrainDeadline {
    fn default() -> (deadline: Self)
        ensures
            deadline@ == 30_000,
    {
        Self::new(Duration::from_secs(30))
    }
}

impl NacelleDrainDeadline {
    /// A deadline `timeout` after the request.
    pub fn new(timeout: Duration) -> (deadline: Self)
        ensures
            deadline@ == clamped_millis(timeout@),
    {
        Self { millis: duration_millis(timeout) }
    }

    /// Replaces the deadline.
    pub fn set(&mut self, timeout: Duration)
        ensures
            final(self)@ == set_deadline(old(self)@, timeout@),
    {
        self.millis = duration_millis(timeout);
    }

    /// The deadline's span.
    pub fn get(&self) -> (timeout: Duration)
        ensures
            timeout@ == self@ * 1_000_000,
    {
        Duration::from_millis(self.millis)
    }
}

/// The whole milliseconds of a span, as far as 64 bits count them.
pub fn duration_millis(timeout: Duration) -> (millis: u64)
    ensures
        millis == clamped_millis(timeout@),
{
    let millis: u128 = timeout.as_millis();
    if millis > u64::MAX as u128 {
        u64::MAX
    } else {
        millis as u64
    }
}

/// What a wait for shutdown does next.
#[derive(Debug, Clone, Copy, PartialEq, Eq, Structural)]
pub enum ShutdownWait {
    /// Shutdown was requested before the wait began.
    Observed,
    /// Wait until the request flag changes or its owner goes away.
    AwaitChange,
}

/// The first step of a wait for shutdown.
pub fn begin_shutdown_wait(requested: bool) -> (next: ShutdownWait)
    ensures
        next == (if requested {
            ShutdownWait::Observed
        } else {
            ShutdownWait::AwaitChange
        }),
{
    if requested {
        ShutdownWait::Observed
    } else {
        ShutdownWait::AwaitChange
    }
}

/// Whether a wait that ended has seen a request: the flag changed while its
/// owner was there, and it is set.
pub fn end_shutdown_wait(changed: bool, requested: bool) -> (observed: bool)
    ensures
        observed == (changed && requested),
{
    changed && requested
}

/// What was set is read back, cut to whole milliseconds: a deadline gives up less
/// than one of them, and nothing of a span that is made of them.
pub proof fn law_deadline_reads_back(timeout: nat)
    requires
        timeout / 1_000_000 <= u64::MAX,
    ensures
        clamped_millis(timeout) * 1_000_000 <= timeout,
        timeout < clamped_millis(timeout) * 1_000_000 + 1_000_000,
        timeout % 1_000_000 == 0 ==> clamped_millis(timeout) * 1_000_000 == timeout,
{
}

/// The last set decides, whatever a deadline held before and however often it was
/// set: those who take turns with one deadline all read what the last of them set.
pub proof fn law_last_set_wins(held: nat, timeouts: Seq<nat>)
    requires
        timeouts.len() > 0,
    ensures
        set_in_turn(held, timeouts) == clamped_millis(timeouts.last()),
        set_in_turn(held, timeouts) <= u64::MAX,
{
}

/// A deadline reads back in whole milliseconds: the span that it was made with,
/// without what is below a millisecond, and the largest that can be held where the
/// span is beyond that.
pub proof fn law_deadlines_are_kept_in_whole_millis(
    timeout: Duration,
    deadline: NacelleDrainDeadline,
    back: Duration,
)
    requires
        call_ensures(NacelleDrainDeadline::new, (timeout,), deadline),
        call_ensures(NacelleDrainDeadline::get, (&deadline,), back),
    ensures
        timeout@ / 1_000_000 <= u64::MAX ==> back@ == timeout@ - timeout@ % 1_000_000,
        timeout@ / 1_000_000 > u64::MAX ==> back@ == u64::MAX * 1_000_000,
{
}

/// A shutdown is observed at once where it was requested before, and otherwise with
/// the change that requests it; a change that does not, or a closed channel, is no
/// shutdown.
pub proof fn law_requested_shutdowns_are_observed(
    requested: bool,
    next: ShutdownWait,
    changed: bool,
    observed: bool,
)
    requires
        call_ensures(begin_shutdown_wait, (requested,), next),
        call_ensures(end_shutdown_wait, (changed, requested), observed),
    ensures
        requested ==> next == ShutdownWait::Observed,
        !requested ==> next == ShutdownWait::AwaitChange && !observed,
        requested && changed ==> observed,
        !changed ==> !observed,
{
}

} // verus!

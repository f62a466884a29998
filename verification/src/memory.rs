//! A ceiling on memory that connections and requests share.
//!
//! A budget has one owner; callers that share it take turns behind a lock. A
//! caller whose memory is not free holds a ticket and waits in line: tickets are
//! served strictly in order, and nothing is handed out past a waiting ticket.
use std::collections::VecDeque;

use vstd::prelude::*;

use crate::error::NacelleError;

pub mod history;

verus! {

/// What a budget has handed out and who waits.
pub struct MemoryState {
    /// The ceiling; the largest `usize` means that nothing is counted.
    pub max: nat,
    pub used: nat,
    /// The waiting tickets with their sizes, first come first.
    pub waiters: Seq<(usize, usize)>,
    pub next_id: usize,
    /// Tickets that were served and not picked up yet.
    pub granted: Seq<usize>,
}

impl MemoryState {
    /// A budget of `max` that has handed out nothing.
    pub open spec fn unused(max: usize) -> MemoryState {
        MemoryState {
            max: max as nat,
            used: 0,
            waiters: Seq::empty(),
            next_id: 1,
            granted: Seq::empty(),
        }
    }

    /// Whether memory is counted at all.
    pub open spec fn counts(self) -> bool {
        self.max != usize::MAX
    }

    pub open spec fn fits(self, bytes: nat) -> bool {
        self.used + bytes <= self.max
    }

    /// Nothing beyond the ceiling is handed out, every ticket could be served
    /// alone, and the first in line waits only because it does not fit.
    pub open spec fn wf(self) -> bool {
        &&& self.used <= self.max
        &&& self.max <= usize::MAX
        &&& self.next_id >= 1
        &&& !self.counts() ==> self.used == 0 && self.waiters.len() == 0
        &&& forall|i: int|
            0 <= i < self.waiters.len() ==> 0 < (#[trigger] self.waiters[i]).1 <= self.max
        &&& self.waiters.len() > 0 ==> !self.fits(self.waiters[0].1 as nat)
    }

    /// What [`Self::wf`] says except that the first in line may fit by now.
    pub open spec fn unsettled_wf(self) -> bool {
        &&& self.used <= self.max
        &&& self.max <= usize::MAX
        &&& self.next_id >= 1
        &&& !self.counts() ==> self.used == 0 && self.waiters.len() == 0
        &&& forall|i: int|
            0 <= i < self.waiters.len() ==> 0 < (#[trigger] self.waiters[i]).1 <= self.max
    }

    /// Serves the line from its head for as long as the head fits.
    pub open spec fn settled(self) -> MemoryState
        decreases self.waiters.len(),
    {
        if self.waiters.len() > 0 && self.fits(self.waiters[0].1 as nat) {
            (MemoryState {
                used: self.used + self.waiters[0].1 as nat,
                waiters: self.waiters.skip(1),
                granted: self.granted.push(self.waiters[0].0),
                ..self
            }).settled()
        } else {
            self
        }
    }

    /// The tickets that [`Self::settled`] serves.
    pub open spec fn newly_granted(self) -> Seq<usize> {
        self.settled().granted.skip(self.granted.len() as int)
    }

    /// `bytes` are handed back and the line is served.
    pub open spec fn released(self, bytes: nat) -> MemoryState {
        if bytes == 0 || !self.counts() {
            self
        } else {
            self.given_back(bytes).settled()
        }
    }

    /// `bytes` are handed back, before the line is served.
    pub open spec fn given_back(self, bytes: nat) -> MemoryState {
        MemoryState { used: (self.used - bytes) as nat, ..self }
    }

    /// The first place in line of ticket `id`, from `from` on.
    pub open spec fn place_of(self, id: usize, from: int) -> Option<int>
        decreases self.waiters.len() - from,
    {
        if from >= self.waiters.len() {
            None
        } else if self.waiters[from].0 == id {
            Some(from)
        } else {
            self.place_of(id, from + 1)
        }
    }

    /// Ticket `id` leaves the line, before the line is served.
    pub open spec fn without(self, id: usize) -> MemoryState {
        match self.place_of(id, 0) {
            Some(place) => MemoryState { waiters: self.waiters.remove(place), ..self },
            None => self,
        }
    }

    /// Ticket `id` leaves the line and the line is served.
    pub open spec fn withdrawn(self, id: usize) -> MemoryState {
        match self.place_of(id, 0) {
            Some(_) => self.without(id).settled(),
            None => self,
        }
    }

    /// Ticket `id` is picked up.
    pub open spec fn claimed(self, id: usize) -> MemoryState {
        MemoryState { granted: self.granted.remove(self.granted.index_of_first(id)->0), ..self }
    }

    /// Whether `bytes` are handed out without waiting.
    pub open spec fn free_now(self, bytes: nat) -> bool {
        self.waiters.len() == 0 && self.fits(bytes)
    }

    /// The id that follows `next_id`; zero is never used.
    pub open spec fn following_id(self) -> usize {
        if self.next_id == usize::MAX {
            1
        } else {
            (self.next_id + 1) as usize
        }
    }

    /// A ticket for `bytes` joins the end of the line.
    pub open spec fn queued(self, bytes: usize) -> MemoryState {
        MemoryState {
            waiters: self.waiters.push((self.next_id, bytes)),
            next_id: self.following_id(),
            ..self
        }
    }

    /// `bytes` are handed out.
    pub open spec fn taken(self, bytes: nat) -> MemoryState {
        MemoryState { used: self.used + bytes, ..self }
    }
}

/// Memory that was handed out. It goes back through
/// [`NacelleMemoryBudget::release`].
#[derive(Debug)]
pub struct NacelleMemoryAllocation {
    bytes: usize,
}

impl View for NacelleMemoryAllocation {
    type V = nat;

    /// The bytes that the allocation holds of its budget.
    closed spec fn view(&self) -> nat {
        self.bytes as nat
    }
}

impl NacelleMemoryAllocation {
    /// An allocation that holds nothing.
    pub fn empty() -> (allocation: Self)
        ensures
            allocation@ == 0,
    {
        Self { bytes: 0 }
    }

    /// The bytes that the allocation holds.
    pub fn bytes(&self) -> (bytes: usize)
        ensures
            bytes == self@,
    {
        self.bytes
    }
}

/// A place in line for memory.
#[derive(Debug)]
pub struct MemoryTicket {
    id: usize,
    bytes: usize,
}

impl MemoryTicket {
    pub closed spec fn number(&self) -> usize {
        self.id
    }

    pub closed spec fn size(&self) -> nat {
        self.bytes as nat
    }

    /// The ticket's number, by which its holder is woken.
    pub fn id(&self) -> (id: usize)
        ensures
            id == self.number(),
    {
        self.id
    }
}

/// The outcome of a request for memory.
#[derive(Debug)]
pub enum MemoryRequest {
    /// The memory is handed out.
    Ready(NacelleMemoryAllocation),
    /// The request can never be met.
    Rejected(NacelleError),
    /// The caller waits in line.
    Waiting(MemoryTicket),
}

/// What a waiting caller observed.
#[derive(Debug, Clone, Copy, PartialEq, Eq, Structural)]
pub enum MemoryEvent {
    /// The caller was woken.
    Notified,
    /// The caller's time is up.
    TimedOut,
    /// Shutdown was requested.
    Shutdown,
}

/// The state of a wait after an event. `wake` lists the tickets whose holders
/// must be woken.
#[derive(Debug)]
pub enum MemoryWait {
    /// The caller still waits.
    Waiting(MemoryTicket),
    /// The memory is handed out.
    Granted(NacelleMemoryAllocation),
    /// The caller gives up.
    Failed { error: NacelleError, wake: Vec<usize> },
}

/// One waiting ticket.
#[derive(Debug, Clone, Copy)]
struct MemoryWaiter {
    id: usize,
    bytes: usize,
}

/// A hard ceiling on memory.
#[derive(Debug)]
pub struct NacelleMemoryBudget {
    max_bytes: usize,
    memory_used: usize,
    waiters: VecDeque<MemoryWaiter>,
    next_waiter_id: usize,
    granted: Vec<usize>,
}

impl View for NacelleMemoryBudget {
    type V = MemoryState;

    closed spec fn view(&self) -> MemoryState {
        MemoryState {
            max: self.max_bytes as nat,
            used: self.memory_used as nat,
            waiters: self.waiters@.map_values(|waiter: MemoryWaiter| (waiter.id, waiter.bytes)),
            next_id: self.next_waiter_id,
            granted: self.granted@,
        }
    }
}

/// The error of a request that finds no memory.
pub open spec fn memory_exhausted() -> NacelleError {
    NacelleError::ResourceLimit("memory_bytes")
}

/// Whether asking `before` for `bytes` at once has this result, and leaves `after`.
pub open spec fn allots(
    before: MemoryState,
    bytes: usize,
    after: MemoryState,
    result: Result<NacelleMemoryAllocation, NacelleError>,
) -> bool {
    if bytes == 0 || !before.counts() {
        result is Ok && result->Ok_0@ == 0 && after == before
    } else if before.free_now(bytes as nat) {
        result is Ok && result->Ok_0@ == bytes && after == before.taken(bytes as nat)
    } else {
        result == Err::<NacelleMemoryAllocation, _>(memory_exhausted()) && after == before
    }
}

/// Whether asking `before` for `bytes` in turn has this outcome, and leaves `after`.
pub open spec fn answers(
    before: MemoryState,
    bytes: usize,
    after: MemoryState,
    outcome: MemoryRequest,
) -> bool {
    if bytes == 0 || !before.counts() {
        outcome is Ready && outcome->Ready_0@ == 0 && after == before
    } else if bytes > before.max {
        outcome == MemoryRequest::Rejected(memory_exhausted()) && after == before
    } else if before.free_now(bytes as nat) {
        outcome is Ready && outcome->Ready_0@ == bytes && after == before.taken(bytes as nat)
    } else {
        outcome is Waiting && outcome->Waiting_0.number() == before.next_id
            && outcome->Waiting_0.size() == bytes && after == before.queued(bytes)
    }
}

/// Whether the wait of `ticket` goes on like this after `event`, and leaves `after`.
pub open spec fn goes_on(
    before: MemoryState,
    ticket: MemoryTicket,
    event: MemoryEvent,
    after: MemoryState,
    next: MemoryWait,
) -> bool {
    if before.granted.contains(ticket.number()) {
        next is Granted && next->Granted_0@ == ticket.size() && after == before.claimed(
            ticket.number(),
        )
    } else {
        match event {
            MemoryEvent::Notified => next == MemoryWait::Waiting(ticket) && after == before,
            MemoryEvent::TimedOut => next is Failed && next->error == NacelleError::Timeout(
                "memory_allocation",
            ) && next->wake@ == before.wakes_of_leaving(ticket.number()) && after
                == before.withdrawn(ticket.number()),
            MemoryEvent::Shutdown => next is Failed && next->error == NacelleError::ConnectionClosed
                && next->wake@ == before.wakes_of_leaving(ticket.number()) && after
                == before.withdrawn(ticket.number()),
        }
    }
}

/// What is kept of `held` bytes that are cut to `bytes`.
pub open spec fn kept_of(held: nat, bytes: nat) -> nat {
    if held <= bytes {
        held
    } else {
        bytes
    }
}

/// Serving the line ends with a head that does not fit.
proof fn lemma_settled(state: MemoryState)
    requires
        state.unsettled_wf(),
    ensures
        state.settled().wf(),
        state.settled().max == state.max,
        state.settled().next_id == state.next_id,
        state.settled().used >= state.used,
        state.settled().granted.len() >= state.granted.len(),
        state.settled().granted.take(state.granted.len() as int) == state.granted,
    decreases state.waiters.len(),
{
    if state.waiters.len() > 0 && state.fits(state.waiters[0].1 as nat) {
        let next = MemoryState {
            used: state.used + state.waiters[0].1 as nat,
            waiters: state.waiters.skip(1),
            granted: state.granted.push(state.waiters[0].0),
            ..state
        };
        lemma_settled(next);
        assert(next.settled().granted.take(state.granted.len() as int)
            =~= next.settled().granted.take(next.granted.len() as int).take(
            state.granted.len() as int,
        ));
        assert(next.granted.take(state.granted.len() as int) =~= state.granted);
    } else {
        assert(state.granted.take(state.granted.len() as int) =~= state.granted);
    }
}

impl NacelleMemoryBudget {
    /// A budget of `max_bytes`; the largest `usize` switches counting off.
    pub fn new(max_bytes: usize) -> (budget: Self)
        ensures
            budget@.wf(),
            budget@ == MemoryState::unused(max_bytes),
    {
        let budget = Self {
            max_bytes,
            memory_used: 0,
            waiters: VecDeque::new(),
            next_waiter_id: 1,
            granted: Vec::new(),
        };
        assert(budget@.waiters =~= Seq::empty());
        budget
    }

    /// The ceiling.
    pub fn max_bytes(&self) -> (bytes: usize)
        ensures
            bytes == self@.max,
    {
        self.max_bytes
    }

    /// The bytes that are handed out.
    pub fn used_bytes(&self) -> (bytes: usize)
        ensures
            bytes == self@.used,
    {
        self.memory_used
    }

    /// The bytes below the ceiling that are not handed out.
    pub fn available_bytes(&self) -> (bytes: usize)
        requires
            self@.wf(),
        ensures
            bytes == self@.max - self@.used,
    {
        self.max_bytes - self.memory_used
    }

    /// The number of callers that wait in line.
    pub fn waiting(&self) -> (count: usize)
        ensures
            count == self@.waiters.len(),
    {
        self.waiters.len()
    }

    /// Hands out `bytes` at once, or not at all. It never overtakes the line.
    pub fn try_allocate(&mut self, bytes: usize) -> (result: Result<
        NacelleMemoryAllocation,
        NacelleError,
    >)
        requires
            old(self)@.wf(),
        ensures
            final(self)@.wf(),
            allots(old(self)@, bytes, final(self)@, result),
    {
        if bytes == 0 || self.max_bytes == usize::MAX {
            return Ok(NacelleMemoryAllocation::empty());
        }
        if self.waiters.len() != 0 {
            return Err(NacelleError::ResourceLimit("memory_bytes"));
        }
        if !self.try_reserve(bytes) {
            return Err(NacelleError::ResourceLimit("memory_bytes"));
        }
        Ok(NacelleMemoryAllocation { bytes })
    }

    /// Counts `bytes` as handed out if they fit.
    fn try_reserve(&mut self, bytes: usize) -> (reserved: bool)
        requires
            old(self)@.used <= old(self)@.max,
        ensures
            reserved == old(self)@.fits(bytes as nat),
            final(self)@ == if reserved {
                old(self)@.taken(bytes as nat)
            } else {
                old(self)@
            },
            final(self).waiters@ == old(self).waiters@,
    {
        if bytes > self.max_bytes - self.memory_used {
            return false;
        }
        self.memory_used = self.memory_used + bytes;
        true
    }

    /// Asks for `bytes`, waiting in line where they are not free.
    pub fn request(&mut self, bytes: usize) -> (outcome: MemoryRequest)
        requires
            old(self)@.wf(),
        ensures
            final(self)@.wf(),
            answers(old(self)@, bytes, final(self)@, outcome),
    {
        if bytes == 0 || self.max_bytes == usize::MAX {
            return MemoryRequest::Ready(NacelleMemoryAllocation::empty());
        }
        if bytes > self.max_bytes {
            return MemoryRequest::Rejected(NacelleError::ResourceLimit("memory_bytes"));
        }
        if self.waiters.len() == 0 {
            if self.try_reserve(bytes) {
                return MemoryRequest::Ready(NacelleMemoryAllocation { bytes });
            }
        }
        let id: usize = self.next_waiter_id;
        self.next_waiter_id = if id == usize::MAX {
            1
        } else {
            id + 1
        };
        self.waiters.push_back(MemoryWaiter { id, bytes });
        proof {
            assert(self@.waiters =~= old(self)@.waiters.push((id, bytes)));
        }
        MemoryRequest::Waiting(MemoryTicket { id, bytes })
    }

    /// Serves the line from its head for as long as the head fits. Returns the
    /// tickets that were served.
    fn grant_waiters(&mut self) -> (served: Vec<usize>)
        requires
            old(self)@.unsettled_wf(),
        ensures
            final(self)@ == old(self)@.settled(),
            final(self)@.wf(),
            served@ == old(self)@.newly_granted(),
    {
        let mut served: Vec<usize> = Vec::new();
        let ghost start = self@;
        loop
            invariant
                self@.unsettled_wf(),
                self@.settled() == start.settled(),
                self@.granted == start.granted + served@,
            ensures
                self@ == start.settled(),
                self@.granted == start.granted + served@,
            decreases self@.waiters.len(),
        {
            let ghost before = self@;
            if self.waiters.len() == 0 {
                break;
            }
            let head = self.waiters[0];
            assert(before.waiters[0] == (head.id, head.bytes));
            if !self.try_reserve(head.bytes) {
                break;
            }
            let popped = self.waiters.pop_front();
            self.granted.push(head.id);
            served.push(head.id);
            proof {
                assert(self@.waiters =~= before.waiters.skip(1));
                assert(self@.granted =~= before.granted.push(head.id));
                assert(self@ == (MemoryState {
                    used: before.used + before.waiters[0].1 as nat,
                    waiters: before.waiters.skip(1),
                    granted: before.granted.push(before.waiters[0].0),
                    ..before
                }));
                assert(self@.granted =~= start.granted + served@);
            }
        }
        proof {
            lemma_settled(start);
            assert(served@ =~= start.settled().granted.skip(start.granted.len() as int));
        }
        served
    }

    /// Hands an allocation back and serves the line. Returns the tickets whose
    /// holders must be woken.
    pub fn release(&mut self, allocation: NacelleMemoryAllocation) -> (wake: Vec<usize>)
        requires
            old(self)@.wf(),
            allocation@ <= old(self)@.used,
        ensures
            final(self)@.wf(),
            final(self)@ == old(self)@.released(allocation@),
            wake@ == old(self)@.wakes_of_release(allocation@),
    {
        self.release_bytes(allocation.bytes)
    }

    fn release_bytes(&mut self, bytes: usize) -> (wake: Vec<usize>)
        requires
            old(self)@.wf(),
            bytes <= old(self)@.used,
        ensures
            final(self)@.wf(),
            final(self)@ == old(self)@.released(bytes as nat),
            wake@ == old(self)@.wakes_of_release(bytes as nat),
    {
        if bytes == 0 || self.max_bytes == usize::MAX {
            return Vec::new();
        }
        self.memory_used = self.memory_used - bytes;
        assert(self@ == old(self)@.given_back(bytes as nat));
        self.grant_waiters()
    }

    /// Keeps at most `bytes` of an allocation and hands the rest back. Returns
    /// the tickets whose holders must be woken.
    pub fn shrink_to(&mut self, allocation: &mut NacelleMemoryAllocation, bytes: usize) -> (wake: Vec<
        usize,
    >)
        requires
            old(self)@.wf(),
            old(allocation)@ <= old(self)@.used,
        ensures
            final(self)@.wf(),
            final(allocation)@ == kept_of(old(allocation)@, bytes as nat),
            final(self)@ == old(self)@.released((old(allocation)@ - final(allocation)@) as nat),
            wake@ == old(self)@.wakes_of_release((old(allocation)@ - final(allocation)@) as nat),
    {
        if allocation.bytes <= bytes {
            return Vec::new();
        }
        let released: usize = allocation.bytes - bytes;
        *allocation = NacelleMemoryAllocation { bytes };
        self.release_bytes(released)
    }

    /// Whether a ticket was served, and its place among those not picked up.
    fn granted_place(&self, id: usize) -> (place: Option<usize>)
        ensures
            match place {
                Some(place) => self@.granted.contains(id) && Some(place as int) == self@.granted.index_of_first(id)
                    && place < self@.granted.len(),
                None => !self@.granted.contains(id),
            },
    {
        let mut place: usize = 0;
        while place < self.granted.len()
            invariant
                place <= self.granted.len(),
                forall|i: int| 0 <= i < place ==> self.granted@[i] != id,
            decreases self.granted.len() - place,
        {
            if self.granted[place] == id {
                proof {
                    lemma_first_index(self.granted@, id, place as int);
                }
                return Some(place);
            }
            place += 1;
        }
        None
    }

    /// Picks up a ticket that was served.
    fn take_grant(&mut self, ticket: &MemoryTicket) -> (allocation: Option<NacelleMemoryAllocation>)
        ensures
            match allocation {
                Some(allocation) => old(self)@.granted.contains(ticket.number()) && allocation@
                    == ticket.size() && final(self)@ == old(self)@.claimed(ticket.number()),
                None => !old(self)@.granted.contains(ticket.number()) && final(self)@ == old(self)@,
            },
    {
        match self.granted_place(ticket.id) {
            Some(place) => {
                let id = self.granted.remove(place);
                Some(NacelleMemoryAllocation { bytes: ticket.bytes })
            },
            None => None,
        }
    }

    /// Takes a ticket out of the line and serves the line.
    fn withdraw(&mut self, id: usize) -> (wake: Vec<usize>)
        requires
            old(self)@.wf(),
        ensures
            final(self)@.wf(),
            final(self)@ == old(self)@.withdrawn(id),
            wake@ == if old(self)@.place_of(id, 0) is Some {
                old(self)@.without(id).newly_granted()
            } else {
                Seq::empty()
            },
    {
        let mut place: usize = 0;
        while place < self.waiters.len()
            invariant
                self@ == old(self)@,
                self@.wf(),
                place <= self.waiters.len(),
                self@.place_of(id, 0) == self@.place_of(id, place as int),
            decreases self.waiters.len() - place,
        {
            assert(self@.waiters[place as int].0 == self.waiters@[place as int].id);
            if self.waiters[place].id == id {
                let removed = self.waiters.remove(place);
                proof {
                    assert(self@.waiters =~= old(self)@.waiters.remove(place as int));
                    assert(self@ == old(self)@.without(id));
                }
                return self.grant_waiters();
            }
            place += 1;
        }
        Vec::new()
    }

    /// One event of a wait in line. A caller that was served is handed its
    /// memory whatever the event; otherwise it goes on waiting after a wake-up,
    /// and leaves the line when its time is up or at shutdown.
    pub fn wait_for_memory_allocation(&mut self, ticket: MemoryTicket, event: MemoryEvent) -> (next:
        MemoryWait)
        requires
            old(self)@.wf(),
        ensures
            final(self)@.wf(),
            goes_on(old(self)@, ticket, event, final(self)@, next),
    {
        if let Some(allocation) = self.take_grant(&ticket) {
            return MemoryWait::Granted(allocation);
        }
        match event {
            MemoryEvent::Notified => MemoryWait::Waiting(ticket),
            MemoryEvent::TimedOut => {
                let wake = self.withdraw(ticket.id);
                MemoryWait::Failed { error: NacelleError::Timeout("memory_allocation"), wake }
            },
            MemoryEvent::Shutdown => {
                let wake = self.withdraw(ticket.id);
                MemoryWait::Failed { error: NacelleError::ConnectionClosed, wake }
            },
        }
    }

    /// A waiting caller goes away: memory that it was served goes back, and its
    /// place in line is given up. Returns the tickets whose holders must be woken.
    pub fn abandon(&mut self, ticket: MemoryTicket) -> (wake: Vec<usize>)
        requires
            old(self)@.wf(),
            old(self)@.granted.contains(ticket.number()) ==> ticket.size() <= old(self)@.used,
        ensures
            final(self)@.wf(),
            if old(self)@.granted.contains(ticket.number()) {
                final(self)@ == old(self)@.claimed(ticket.number()).released(ticket.size()) && wake@
                    == old(self)@.claimed(ticket.number()).wakes_of_release(ticket.size())
            } else {
                final(self)@ == old(self)@.withdrawn(ticket.number()) && wake@ == old(self)@.wakes_of_leaving(ticket.number())
            },
    {
        match self.take_grant(&ticket) {
            Some(allocation) => self.release(allocation),
            None => self.withdraw(ticket.id),
        }
    }
}

impl MemoryState {
    /// The tickets that are served when `bytes` are handed back.
    pub open spec fn wakes_of_release(self, bytes: nat) -> Seq<usize> {
        if bytes == 0 || !self.counts() {
            Seq::empty()
        } else {
            self.given_back(bytes).newly_granted()
        }
    }

    /// The tickets that are served when ticket `id` leaves the line.
    pub open spec fn wakes_of_leaving(self, id: usize) -> Seq<usize> {
        if self.place_of(id, 0) is Some {
            self.without(id).newly_granted()
        } else {
            Seq::empty()
        }
    }
}

/// The first place of a value is its index.
proof fn lemma_first_index(values: Seq<usize>, value: usize, place: int)
    requires
        0 <= place < values.len(),
        values[place] == value,
        forall|i: int| 0 <= i < place ==> values[i] != value,
    ensures
        values.contains(value),
        values.index_of_first(value) == Some(place),
{
    values.index_of_first_ensures(value);
}

/// The sizes of tickets, added up.
pub open spec fn total_size(waiters: Seq<(usize, usize)>) -> nat
    decreases waiters.len(),
{
    if waiters.len() == 0 {
        0
    } else {
        waiters[0].1 as nat + total_size(waiters.skip(1))
    }
}

/// The line is served strictly in order: serving it takes some tickets from its
/// front, hands out exactly their sizes, leaves the others in their order, and
/// stops only at a ticket that does not fit.
pub proof fn law_line_is_served_in_order(state: MemoryState) -> (count: int)
    requires
        state.unsettled_wf(),
    ensures
        0 <= count <= state.waiters.len(),
        state.settled().waiters == state.waiters.skip(count),
        state.newly_granted() == state.waiters.take(count).map_values(
            |waiter: (usize, usize)| waiter.0,
        ),
        state.settled().used == state.used + total_size(state.waiters.take(count)),
        count < state.waiters.len() ==> !state.settled().fits(state.waiters[count].1 as nat),
    decreases state.waiters.len(),
{
    if state.waiters.len() > 0 && state.fits(state.waiters[0].1 as nat) {
        let next = MemoryState {
            used: state.used + state.waiters[0].1 as nat,
            waiters: state.waiters.skip(1),
            granted: state.granted.push(state.waiters[0].0),
            ..state
        };
        let rest = law_line_is_served_in_order(next);
        let count = rest + 1;
        lemma_settled(next);
        assert(next.waiters.skip(rest) =~= state.waiters.skip(count));
        assert(state.waiters.take(count).skip(1) =~= next.waiters.take(rest));
        let ids = |waiter: (usize, usize)| waiter.0;
        let settled = next.settled();
        assert(settled.granted.take(next.granted.len() as int) == next.granted);
        assert(state.newly_granted() =~= seq![state.waiters[0].0] + next.newly_granted()) by {
            assert(settled.granted[state.granted.len() as int] == settled.granted.take(
                next.granted.len() as int,
            )[state.granted.len() as int]);
        }
        assert(state.waiters.take(count).map_values(ids) =~= seq![state.waiters[0].0]
            + next.waiters.take(rest).map_values(ids));
        count
    } else {
        assert(state.waiters.skip(0) =~= state.waiters);
        assert(state.newly_granted() =~= Seq::empty());
        assert(state.waiters.take(0).map_values(|waiter: (usize, usize)| waiter.0) =~= Seq::empty());
        0
    }
}

/// Handing memory back undoes handing it out.
pub proof fn law_release_undoes_allocation(state: MemoryState, bytes: nat)
    requires
        state.wf(),
        state.counts(),
        bytes > 0,
        state.free_now(bytes),
    ensures
        state.taken(bytes).released(bytes) == state,
{
}

/// Memory that is handed back is free for another caller of the same size, where
/// nobody waits.
pub proof fn law_released_memory_is_reusable(state: MemoryState, bytes: nat)
    requires
        state.wf(),
        state.counts(),
        0 < bytes <= state.used,
        state.waiters.len() == 0,
    ensures
        state.released(bytes).free_now(bytes),
{
}

/// Memory that was served to a caller that went away is free again: exactly its
/// size goes back, for those in line first.
pub proof fn law_abandoned_memory_goes_back(state: MemoryState, id: usize, bytes: nat)
    requires
        state.wf(),
        state.counts(),
        state.granted.contains(id),
        0 < bytes <= state.used,
    ensures
        ({
            let back = state.claimed(id).given_back(bytes);
            &&& back.used == state.used - bytes
            &&& back.waiters == state.waiters
            &&& state.claimed(id).released(bytes) == back.settled()
            &&& state.waiters.len() == 0 ==> state.claimed(id).released(bytes).used == state.used
                - bytes
        }),
{
}

/// A caller that joins the line and gives up leaves the budget as it was, except
/// that its number is spent.
pub proof fn law_giving_up_leaves_no_trace(state: MemoryState, bytes: usize)
    requires
        state.wf(),
        state.counts(),
        0 < bytes <= state.max,
        !state.free_now(bytes as nat),
        forall|i: int| 0 <= i < state.waiters.len() ==> (#[trigger] state.waiters[i]).0
            != state.next_id,
    ensures
        state.queued(bytes).withdrawn(state.next_id) == (MemoryState {
            next_id: state.following_id(),
            ..state
        }),
{
    let queued = state.queued(bytes);
    lemma_place_of_last(queued, state.next_id, 0);
    assert(queued.waiters.remove(state.waiters.len() as int) =~= state.waiters);
}

proof fn lemma_place_of_last(state: MemoryState, id: usize, from: int)
    requires
        state.waiters.len() > 0,
        state.waiters.last().0 == id,
        0 <= from < state.waiters.len(),
        forall|i: int| 0 <= i < state.waiters.len() - 1 ==> (#[trigger] state.waiters[i]).0 != id,
    ensures
        state.place_of(id, from) == Some(state.waiters.len() - 1),
    decreases state.waiters.len() - from,
{
    if from < state.waiters.len() - 1 {
        assert(state.waiters[from].0 != id);
        lemma_place_of_last(state, id, from + 1);
    }
}

/// Memory is handed out at once exactly if nobody waits and it fits below the
/// ceiling, and is then counted; otherwise nothing is. Nothing is counted for an
/// empty request, nor under the largest ceiling.
pub proof fn law_free_memory_is_handed_out(
    before: MemoryState,
    bytes: usize,
    after: MemoryState,
    result: Result<NacelleMemoryAllocation, NacelleError>,
)
    requires
        allots(before, bytes, after, result),
    ensures
        bytes == 0 || before.max == usize::MAX ==> result is Ok && result->Ok_0@ == 0 && after
            == before,
        bytes > 0 && before.max != usize::MAX ==> (result is Ok <==> before.waiters.len() == 0
            && before.used + bytes <= before.max),
        bytes > 0 && before.max != usize::MAX && result is Ok ==> result->Ok_0@ == bytes
            && after.used == before.used + bytes,
        result matches Err(error) ==> error == NacelleError::ResourceLimit("memory_bytes")
            && after.used == before.used,
        after.max == before.max,
        after.waiters == before.waiters,
        after.granted == before.granted,
        after.next_id == before.next_id,
{
}

/// A request waits exactly if it can be served at some time but not now, and it
/// waits behind all who wait already. One beyond the ceiling is refused, and one
/// that fits while nobody waits is served and counted.
pub proof fn law_requests_wait_their_turn(
    before: MemoryState,
    bytes: usize,
    after: MemoryState,
    outcome: MemoryRequest,
)
    requires
        answers(before, bytes, after, outcome),
        bytes > 0,
        before.max < usize::MAX,
    ensures
        after.max == before.max,
        after.granted == before.granted,
        outcome is Rejected <==> bytes > before.max,
        outcome is Ready <==> before.waiters.len() == 0 && before.used + bytes <= before.max,
        outcome is Rejected ==> after == before && outcome->Rejected_0
            == NacelleError::ResourceLimit("memory_bytes"),
        outcome matches MemoryRequest::Ready(allocation) ==> allocation@ == bytes && after.used
            == before.used + bytes && after.waiters == before.waiters && after.next_id
            == before.next_id,
        outcome matches MemoryRequest::Waiting(ticket) ==> {
            &&& ticket.size() == bytes
            &&& ticket.number() == before.next_id
            &&& after.used == before.used
            &&& after.waiters.len() == before.waiters.len() + 1
            &&& after.waiters.last() == (ticket.number(), bytes)
            &&& forall|i: int|
                0 <= i < before.waiters.len() ==> #[trigger] after.waiters[i] == before.waiters[i]
            &&& after.next_id >= 1
            &&& before.next_id < usize::MAX ==> after.next_id == before.next_id + 1
        },
{
}

/// A request for nothing is served without being counted, as is every request
/// under the largest ceiling.
pub proof fn law_uncounted_requests_are_served(
    before: MemoryState,
    bytes: usize,
    after: MemoryState,
    outcome: MemoryRequest,
)
    requires
        answers(before, bytes, after, outcome),
        bytes == 0 || before.max == usize::MAX,
    ensures
        after == before,
        outcome is Ready,
        outcome->Ready_0@ == 0,
{
}

/// A caller in line gets its memory once it was served, whatever woke it, and
/// what is counted does not change by that. Before, a wake-up alone changes
/// nothing; when its time is up or at shutdown it fails, and is not in line any
/// more if its number is not used twice.
pub proof fn law_waits_end_with_memory_or_failure(
    before: MemoryState,
    ticket: MemoryTicket,
    event: MemoryEvent,
    after: MemoryState,
    next: MemoryWait,
)
    requires
        before.wf(),
        goes_on(before, ticket, event, after, next),
    ensures
        next is Granted <==> before.granted.contains(ticket.number()),
        next matches MemoryWait::Granted(allocation) ==> allocation@ == ticket.size() && after.used
            == before.used && after.waiters == before.waiters && after.granted.len() + 1
            == before.granted.len(),
        next is Waiting <==> !before.granted.contains(ticket.number()) && event is Notified,
        next is Waiting ==> after == before,
        next is Failed && event is TimedOut ==> next->error == NacelleError::Timeout(
            "memory_allocation",
        ),
        next is Failed && event is Shutdown ==> next->error == NacelleError::ConnectionClosed,
        next is Failed && (forall|i: int|
            0 <= i < before.waiters.len() ==> (#[trigger] before.waiters[i]).0 != ticket.number())
            ==> after == before,
        next is Failed && (forall|i: int, j: int|
            0 <= i < j < before.waiters.len() ==> (#[trigger] before.waiters[i]).0 != (
            #[trigger] before.waiters[j]).0) ==> forall|i: int|
            0 <= i < after.waiters.len() ==> (#[trigger] after.waiters[i]).0 != ticket.number(),
{
    let id = ticket.number();
    before.granted.index_of_first_ensures(id);
    law_the_first_place_in_line_counts(before, id, 0);
    if next is Failed {
        if before.place_of(id, 0) is Some {
            let place = before.place_of(id, 0)->0;
            let left = before.without(id);
            assert(left.waiters == before.waiters.remove(place));
            assert(left.unsettled_wf()) by {
                assert forall|i: int| 0 <= i < left.waiters.len() implies 0 < (
                #[trigger] left.waiters[i]).1 <= left.max by {
                    assert(left.waiters[i] == before.waiters[if i < place {
                        i
                    } else {
                        i + 1
                    }]);
                }
            }
            let count = law_line_is_served_in_order(left);
            if forall|i: int, j: int|
                0 <= i < j < before.waiters.len() ==> (#[trigger] before.waiters[i]).0 != (
                #[trigger] before.waiters[j]).0 {
                assert forall|i: int| 0 <= i < after.waiters.len() implies (
                #[trigger] after.waiters[i]).0 != id by {
                    let at = i + count;
                    let from = if at < place {
                        at
                    } else {
                        at + 1
                    };
                    assert(after.waiters[i] == left.waiters[at]);
                    assert(left.waiters[at] == before.waiters[from]);
                    assert(before.waiters[place].0 == id);
                }
            }
        }
    }
}

/// The place of a ticket in line is the first with its number.
pub proof fn law_the_first_place_in_line_counts(state: MemoryState, id: usize, from: int)
    requires
        0 <= from,
    ensures
        match state.place_of(id, from) {
            Some(place) => from <= place < state.waiters.len() && state.waiters[place].0 == id
                && forall|i: int| from <= i < place ==> (#[trigger] state.waiters[i]).0 != id,
            None => forall|i: int|
                from <= i < state.waiters.len() ==> (#[trigger] state.waiters[i]).0 != id,
        },
    decreases state.waiters.len() - from,
{
    if from < state.waiters.len() && state.waiters[from].0 != id {
        law_the_first_place_in_line_counts(state, id, from + 1);
    }
}

/// Memory that is handed back is taken off what is counted, and those in line are
/// served from it in their order: what is counted afterwards is what was, less
/// what came back, and more what they got.
pub proof fn law_memory_handed_back_serves_the_line(state: MemoryState, bytes: nat) -> (count: int)
    requires
        state.wf(),
        state.counts(),
        0 < bytes <= state.used,
    ensures
        0 <= count <= state.waiters.len(),
        state.released(bytes).used + bytes == state.used + total_size(state.waiters.take(count)),
        state.released(bytes).waiters == state.waiters.skip(count),
        state.wakes_of_release(bytes) == state.waiters.take(count).map_values(
            |waiter: (usize, usize)| waiter.0,
        ),
        state.released(bytes).used <= state.max,
        count < state.waiters.len() ==> state.released(bytes).used + state.waiters[count].1
            > state.max,
{
    let back = state.given_back(bytes);
    lemma_settled(back);
    law_line_is_served_in_order(back)
}

/// Cutting an allocation keeps no more than is asked for, and no more than there
/// is; where nobody waits, exactly the rest is free again.
pub proof fn law_cutting_hands_back_the_rest(state: MemoryState, held: nat, bytes: nat)
    requires
        state.wf(),
        state.counts(),
        held <= state.used,
        state.waiters.len() == 0,
    ensures
        held <= bytes ==> kept_of(held, bytes) == held,
        held > bytes ==> kept_of(held, bytes) == bytes,
        state.released((held - kept_of(held, bytes)) as nat).used + held == state.used + kept_of(
            held,
            bytes,
        ),
{
}

/// A new budget has its whole ceiling free.
pub proof fn law_new_budgets_are_free(max: usize, budget: NacelleMemoryBudget, free: usize)
    requires
        call_ensures(NacelleMemoryBudget::new, (max,), budget),
        call_ensures(NacelleMemoryBudget::available_bytes, (&budget,), free),
    ensures
        budget@.max == max,
        budget@.used == 0,
        budget@.waiters.len() == 0,
        free == max,
{
}

} // verus!

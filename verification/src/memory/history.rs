//! What a memory budget keeps over any history of its use.
use vstd::prelude::*;

use super::{MemoryEvent, MemoryState};

verus! {

/// One use of a budget. Allocations that are held are named by their place among
/// them, and those who wait by the numbers of their tickets.
pub enum MemoryUse {
    /// Memory is asked for at once.
    Allocate(usize),
    /// Memory is asked for, waiting in line where it is not free.
    Request(usize),
    /// Something happens to the holder of a ticket.
    Wait(usize, MemoryEvent),
    /// The holder of a ticket goes away.
    Abandon(usize),
    /// An allocation is handed back.
    Release(int),
    /// At most so many bytes of an allocation are kept.
    Shrink(int, usize),
}

/// A budget with what its users hold of it.
pub struct MemoryHistory {
    pub state: MemoryState,
    /// The sizes of the allocations that are held.
    pub held: Seq<nat>,
    /// The tickets whose holders wait, or were served and have not picked up yet, with
    /// their sizes.
    pub tickets: Map<usize, nat>,
}

/// The sum of sizes.
pub open spec fn total(sizes: Seq<nat>) -> nat
    decreases sizes.len(),
{
    if sizes.len() == 0 {
        0
    } else {
        total(sizes.drop_last()) + sizes.last()
    }
}

/// The sizes of tickets by their numbers.
pub open spec fn sizes_of(numbers: Seq<usize>, tickets: Map<usize, nat>) -> Seq<nat> {
    numbers.map_values(|number: usize| tickets[number])
}

/// The numbers of waiting tickets.
pub open spec fn numbers_of(waiters: Seq<(usize, usize)>) -> Seq<usize> {
    waiters.map_values(|waiter: (usize, usize)| waiter.0)
}

impl MemoryHistory {
    /// A budget of `max` that nobody has used.
    pub open spec fn unused(max: usize) -> MemoryHistory {
        MemoryHistory {
            state: MemoryState::unused(max),
            held: Seq::empty(),
            tickets: Map::empty(),
        }
    }

    /// Whether a request for `bytes` has to wait.
    pub open spec fn waits_for(self, bytes: usize) -> bool {
        0 < bytes <= self.state.max && self.state.counts() && !self.state.free_now(bytes as nat)
    }

    /// Whether a use is possible: it names what is there, and a new ticket gets a
    /// number that no ticket has.
    pub open spec fn can(self, action: MemoryUse) -> bool {
        match action {
            MemoryUse::Allocate(_) => true,
            MemoryUse::Request(bytes) => self.waits_for(bytes) ==> !self.tickets.contains_key(
                self.state.next_id,
            ),
            MemoryUse::Wait(number, _) => self.tickets.contains_key(number),
            MemoryUse::Abandon(number) => self.tickets.contains_key(number),
            MemoryUse::Release(place) => 0 <= place < self.held.len(),
            MemoryUse::Shrink(place, _) => 0 <= place < self.held.len(),
        }
    }

    /// What follows one use.
    pub open spec fn after(self, action: MemoryUse) -> MemoryHistory {
        let state = self.state;
        match action {
            MemoryUse::Allocate(bytes) => if bytes == 0 || !state.counts() {
                MemoryHistory { held: self.held.push(0), ..self }
            } else if state.free_now(bytes as nat) {
                MemoryHistory {
                    state: state.taken(bytes as nat),
                    held: self.held.push(bytes as nat),
                    ..self
                }
            } else {
                self
            },
            MemoryUse::Request(bytes) => if bytes == 0 || !state.counts() {
                MemoryHistory { held: self.held.push(0), ..self }
            } else if bytes > state.max {
                self
            } else if state.free_now(bytes as nat) {
                MemoryHistory {
                    state: state.taken(bytes as nat),
                    held: self.held.push(bytes as nat),
                    ..self
                }
            } else {
                MemoryHistory {
                    state: state.queued(bytes),
                    tickets: self.tickets.insert(state.next_id, bytes as nat),
                    ..self
                }
            },
            MemoryUse::Wait(number, event) => if state.granted.contains(number) {
                MemoryHistory {
                    state: state.claimed(number),
                    held: self.held.push(self.tickets[number]),
                    tickets: self.tickets.remove(number),
                }
            } else if event == MemoryEvent::Notified {
                self
            } else {
                MemoryHistory {
                    state: state.withdrawn(number),
                    tickets: self.tickets.remove(number),
                    ..self
                }
            },
            MemoryUse::Abandon(number) => MemoryHistory {
                state: if state.granted.contains(number) {
                    state.claimed(number).released(self.tickets[number])
                } else {
                    state.withdrawn(number)
                },
                tickets: self.tickets.remove(number),
                ..self
            },
            MemoryUse::Release(place) => MemoryHistory {
                state: state.released(self.held[place]),
                held: self.held.remove(place),
                ..self
            },
            MemoryUse::Shrink(place, bytes) => {
                let kept = if self.held[place] <= bytes {
                    self.held[place]
                } else {
                    bytes as nat
                };
                MemoryHistory {
                    state: state.released((self.held[place] - kept) as nat),
                    held: self.held.update(place, kept),
                    ..self
                }
            },
        }
    }

    /// Whether uses are possible one after another.
    pub open spec fn can_all(self, actions: Seq<MemoryUse>) -> bool
        decreases actions.len(),
    {
        actions.len() == 0 || (self.can_all(actions.drop_last()) && self.after_all(
            actions.drop_last(),
        ).can(actions.last()))
    }

    /// What follows uses one after another.
    pub open spec fn after_all(self, actions: Seq<MemoryUse>) -> MemoryHistory
        decreases actions.len(),
    {
        if actions.len() == 0 {
            self
        } else {
            self.after_all(actions.drop_last()).after(actions.last())
        }
    }

    /// The numbers of all tickets: those that were served, then those in line.
    spec fn line(self) -> Seq<usize> {
        self.state.granted + numbers_of(self.state.waiters)
    }

    /// The bytes that were served and not picked up yet.
    pub open spec fn served(self) -> nat {
        total(sizes_of(self.state.granted, self.tickets))
    }

    /// The books are right, though the line may have to be served.
    spec fn unsettled(self) -> bool {
        &&& self.state.unsettled_wf()
        &&& self.state.used == total(self.held) + self.served()
        &&& self.line().no_duplicates()
        &&& forall|number: usize| #[trigger]
            self.tickets.contains_key(number) <==> self.line().contains(number)
        &&& forall|i: int|
            0 <= i < self.state.waiters.len() ==> (#[trigger] self.state.waiters[i]).1
                == self.tickets[self.state.waiters[i].0]
    }

    /// The books are right.
    spec fn settled(self) -> bool {
        self.unsettled() && self.state.wf()
    }
}

proof fn lemma_total_push(sizes: Seq<nat>, size: nat)
    ensures
        total(sizes.push(size)) == total(sizes) + size,
{
    assert(sizes.push(size).drop_last() =~= sizes);
}

proof fn lemma_total_remove(sizes: Seq<nat>, place: int)
    requires
        0 <= place < sizes.len(),
    ensures
        total(sizes.remove(place)) + sizes[place] == total(sizes),
    decreases sizes.len(),
{
    if place == sizes.len() - 1 {
        assert(sizes.remove(place) =~= sizes.drop_last());
    } else {
        lemma_total_remove(sizes.drop_last(), place);
        assert(sizes.remove(place).drop_last() =~= sizes.drop_last().remove(place));
    }
}

proof fn lemma_total_update(sizes: Seq<nat>, place: int, size: nat)
    requires
        0 <= place < sizes.len(),
    ensures
        total(sizes.update(place, size)) + sizes[place] == total(sizes) + size,
{
    lemma_total_remove(sizes, place);
    lemma_total_remove(sizes.update(place, size), place);
    assert(sizes.update(place, size).remove(place) =~= sizes.remove(place));
}

/// Serving the line keeps the books right.
proof fn lemma_serving(history: MemoryHistory)
    requires
        history.unsettled(),
    ensures
        (MemoryHistory { state: history.state.settled(), ..history }).settled(),
    decreases history.state.waiters.len(),
{
    let state = history.state;
    if state.waiters.len() > 0 && state.fits(state.waiters[0].1 as nat) {
        let (number, bytes) = state.waiters[0];
        let next = MemoryHistory {
            state: MemoryState {
                used: state.used + bytes as nat,
                waiters: state.waiters.skip(1),
                granted: state.granted.push(number),
                ..state
            },
            ..history
        };
        assert(next.line() =~= history.line());
        assert(sizes_of(next.state.granted, history.tickets) =~= sizes_of(
            state.granted,
            history.tickets,
        ).push(bytes as nat));
        lemma_total_push(sizes_of(state.granted, history.tickets), bytes as nat);
        lemma_serving(next);
    }
}

/// Handing back what is held keeps the books right.
proof fn lemma_release(history: MemoryHistory, before: MemoryState, bytes: nat)
    requires
        before.wf(),
        bytes <= before.used,
        history.state == before,
        (MemoryHistory { state: before.given_back(bytes), ..history }).unsettled(),
    ensures
        (MemoryHistory { state: before.released(bytes), ..history }).settled(),
{
    if bytes == 0 || !before.counts() {
        assert(before.given_back(bytes) == before);
    } else {
        lemma_serving(MemoryHistory { state: before.given_back(bytes), ..history });
    }
}

/// A number that leaves the line leaves the others as they are.
proof fn lemma_leaving(line: Seq<usize>, place: int)
    requires
        line.no_duplicates(),
        0 <= place < line.len(),
    ensures
        line.remove(place).no_duplicates(),
        forall|number: usize| #[trigger]
            line.remove(place).contains(number) <==> line.contains(number) && number
                != line[place],
{
    let rest = line.remove(place);
    assert forall|number: usize| #[trigger] rest.contains(number) implies line.contains(number)
        && number != line[place] by {
        let i = choose|i: int| 0 <= i < rest.len() && rest[i] == number;
        assert(line[if i < place {
            i
        } else {
            i + 1
        }] == number);
    }
    assert forall|number: usize| line.contains(number) && number != line[place] implies
        #[trigger] rest.contains(number) by {
        let i = choose|i: int| 0 <= i < line.len() && line[i] == number;
        assert(rest[if i < place {
            i
        } else {
            i - 1
        }] == number);
    }
}

/// Sizes are the same without a ticket that is not asked for.
proof fn lemma_sizes_without(numbers: Seq<usize>, tickets: Map<usize, nat>, number: usize)
    requires
        !numbers.contains(number),
    ensures
        sizes_of(numbers, tickets.remove(number)) == sizes_of(numbers, tickets),
{
    assert forall|i: int| 0 <= i < numbers.len() implies tickets.remove(number)[numbers[i]]
        == #[trigger] tickets[numbers[i]] by {
        assert(numbers.contains(numbers[i]));
    }
    assert(sizes_of(numbers, tickets.remove(number)) =~= sizes_of(numbers, tickets));
}

/// A served ticket that is picked up takes its size with it.
proof fn lemma_claim(history: MemoryHistory, number: usize)
    requires
        history.settled(),
        history.state.granted.contains(number),
    ensures
        ({
            let tickets = history.tickets.remove(number);
            let next = MemoryHistory { state: history.state.claimed(number), tickets, ..history };
            &&& next.state.wf()
            &&& next.served() + history.tickets[number] == history.served()
            &&& next.line().no_duplicates()
            &&& forall|other: usize| #[trigger]
                next.tickets.contains_key(other) <==> next.line().contains(other)
            &&& forall|i: int|
                0 <= i < next.state.waiters.len() ==> (#[trigger] next.state.waiters[i]).1
                    == next.tickets[next.state.waiters[i].0]
        }),
{
    let granted = history.state.granted;
    granted.index_of_first_ensures(number);
    let place = granted.index_of_first(number)->0;
    let line = history.line();
    assert(line[place] == number);
    lemma_leaving(line, place);
    let tickets = history.tickets.remove(number);
    let next = MemoryHistory { state: history.state.claimed(number), tickets, ..history };
    assert(next.line() =~= line.remove(place));
    assert(!granted.remove(place).contains(number)) by {
        if granted.remove(place).contains(number) {
            let i = choose|i: int|
                0 <= i < granted.remove(place).len() && granted.remove(place)[i] == number;
            assert(next.line()[i] == number);
            assert(next.line().contains(number));
        }
    }
    lemma_sizes_without(granted.remove(place), history.tickets, number);
    assert(sizes_of(granted.remove(place), history.tickets) =~= sizes_of(
        granted,
        history.tickets,
    ).remove(place));
    lemma_total_remove(sizes_of(granted, history.tickets), place);
    assert forall|i: int| 0 <= i < next.state.waiters.len() implies (#[trigger] next.state.waiters[i]).1
        == next.tickets[next.state.waiters[i].0] by {
        assert(line[granted.len() + i] == history.state.waiters[i].0);
    }
}

/// A ticket in line has a place there.
proof fn lemma_place(state: MemoryState, number: usize, from: int, index: int)
    requires
        0 <= from <= index < state.waiters.len(),
        state.waiters[index].0 == number,
    ensures
        state.place_of(number, from) is Some,
        from <= state.place_of(number, from)->0 < state.waiters.len(),
        state.waiters[state.place_of(number, from)->0].0 == number,
    decreases state.waiters.len() - from,
{
    if state.waiters[from].0 != number {
        lemma_place(state, number, from + 1, index);
    }
}

/// A ticket that gives up its place leaves the books right.
proof fn lemma_withdraw(history: MemoryHistory, number: usize)
    requires
        history.settled(),
        history.tickets.contains_key(number),
        !history.state.granted.contains(number),
    ensures
        (MemoryHistory {
            state: history.state.withdrawn(number),
            tickets: history.tickets.remove(number),
            ..history
        }).settled(),
        history.state.withdrawn(number).max == history.state.max,
{
    let state = history.state;
    let line = history.line();
    assert(line.contains(number));
    let at = choose|i: int| 0 <= i < line.len() && line[i] == number;
    if at < state.granted.len() {
        assert(state.granted[at] == number);
    }
    lemma_place(state, number, 0, at - state.granted.len());
    let place = state.place_of(number, 0)->0;
    lemma_leaving(line, state.granted.len() + place);
    let next = MemoryHistory {
        state: state.without(number),
        tickets: history.tickets.remove(number),
        ..history
    };
    assert(next.line() =~= line.remove(state.granted.len() + place));
    lemma_sizes_without(state.granted, history.tickets, number);
    assert forall|i: int| 0 <= i < next.state.waiters.len() implies (#[trigger] next.state.waiters[i]).1
        == next.tickets[next.state.waiters[i].0] by {
        let earlier = if i < place {
            i
        } else {
            i + 1
        };
        assert(next.state.waiters[i] == state.waiters[earlier]);
        assert(line[state.granted.len() + earlier] == state.waiters[earlier].0);
        assert(line[state.granted.len() + place] == number);
    }
    lemma_serving(next);
    super::lemma_settled(next.state);
}

/// Each use keeps the books right.
proof fn lemma_use(history: MemoryHistory, action: MemoryUse)
    requires
        history.settled(),
        history.can(action),
    ensures
        history.after(action).settled(),
        history.after(action).state.max == history.state.max,
{
    let state = history.state;
    let next = history.after(action);
    match action {
        MemoryUse::Allocate(bytes) => {
            lemma_total_push(history.held, 0);
            lemma_total_push(history.held, bytes as nat);
            assert(next.line() =~= history.line());
        },
        MemoryUse::Request(bytes) => {
            lemma_total_push(history.held, 0);
            lemma_total_push(history.held, bytes as nat);
            if next.tickets == history.tickets {
                assert(next.line() =~= history.line());
            } else {
                let number = state.next_id;
                assert(!history.line().contains(number));
                assert(next.line() =~= history.line().push(number));
                assert forall|other: usize| #[trigger]
                    next.tickets.contains_key(other) <==> next.line().contains(other) by {
                    if history.line().contains(other) {
                        let i = choose|i: int|
                            0 <= i < history.line().len() && history.line()[i] == other;
                        assert(next.line()[i] == other);
                    }
                    assert(next.line()[history.line().len() as int] == number);
                }
                assert forall|i: int| 0 <= i < state.granted.len() implies #[trigger] next.tickets[state.granted[i]]
                    == history.tickets[state.granted[i]] by {
                    assert(history.line()[i] == state.granted[i]);
                }
                assert(sizes_of(state.granted, next.tickets) =~= sizes_of(
                    state.granted,
                    history.tickets,
                ));
                assert forall|i: int| 0 <= i < next.state.waiters.len() implies (
                #[trigger] next.state.waiters[i]).1 == next.tickets[next.state.waiters[i].0] by {
                    if i < state.waiters.len() {
                        assert(history.line()[state.granted.len() + i] == state.waiters[i].0);
                    }
                }
            }
        },
        MemoryUse::Wait(number, event) => {
            if state.granted.contains(number) {
                lemma_claim(history, number);
                lemma_total_push(history.held, history.tickets[number]);
            } else if event != MemoryEvent::Notified {
                lemma_withdraw(history, number);
            }
        },
        MemoryUse::Abandon(number) => {
            if state.granted.contains(number) {
                lemma_claim(history, number);
                let bytes = history.tickets[number];
                let claimed = MemoryHistory {
                    state: state.claimed(number),
                    tickets: history.tickets.remove(number),
                    ..history
                };
                let back = MemoryHistory { state: claimed.state.given_back(bytes), ..claimed };
                assert(back.line() =~= claimed.line());
                lemma_release(claimed, claimed.state, bytes);
                super::lemma_settled(back.state);
            } else {
                lemma_withdraw(history, number);
            }
        },
        MemoryUse::Release(place) => {
            lemma_total_remove(history.held, place);
            let rest = MemoryHistory { held: history.held.remove(place), ..history };
            let back = MemoryHistory { state: state.given_back(history.held[place]), ..rest };
            assert(back.line() =~= history.line());
            lemma_release(rest, state, history.held[place]);
            super::lemma_settled(back.state);
        },
        MemoryUse::Shrink(place, bytes) => {
            let kept = next.held[place];
            let given = (history.held[place] - kept) as nat;
            lemma_total_remove(history.held, place);
            lemma_total_update(history.held, place, kept);
            let rest = MemoryHistory { held: history.held.update(place, kept), ..history };
            let back = MemoryHistory { state: state.given_back(given), ..rest };
            assert(back.line() =~= history.line());
            lemma_release(rest, state, given);
            super::lemma_settled(back.state);
        },
    }
}

proof fn lemma_uses(max: usize, actions: Seq<MemoryUse>)
    requires
        MemoryHistory::unused(max).can_all(actions),
    ensures
        MemoryHistory::unused(max).after_all(actions).settled(),
        MemoryHistory::unused(max).after_all(actions).state.max == max,
    decreases actions.len(),
{
    let start = MemoryHistory::unused(max);
    if actions.len() == 0 {
        assert(start.line() =~= Seq::empty());
        assert(sizes_of(start.state.granted, start.tickets) =~= Seq::empty());
    } else {
        lemma_uses(max, actions.drop_last());
        lemma_use(start.after_all(actions.drop_last()), actions.last());
    }
}

/// Whatever allocations, waits, shrinks and releases a budget has seen, what it
/// counts as handed out is what its users hold and what was served and not picked up
/// yet, and it is never above the ceiling. Once nobody waits it is exactly what is
/// held, and once nothing is held either, it is nothing and the whole budget is free.
///
/// The numbers of tickets go round; a new one must not be in use still.
pub proof fn law_used_memory_is_what_is_held(max: usize, actions: Seq<MemoryUse>)
    requires
        MemoryHistory::unused(max).can_all(actions),
    ensures
        ({
            let history = MemoryHistory::unused(max).after_all(actions);
            &&& history.state.wf()
            &&& history.state.max == max
            &&& history.state.used <= max
            &&& history.state.used == total(history.held) + history.served()
            &&& history.tickets == Map::<usize, nat>::empty() ==> history.state.used == total(
                history.held,
            )
            &&& history.tickets == Map::<usize, nat>::empty() && total(history.held) == 0
                ==> history.state.used == 0 && history.state.free_now(max as nat)
        }),
{
    lemma_uses(max, actions);
    let history = MemoryHistory::unused(max).after_all(actions);
    if history.tickets == Map::<usize, nat>::empty() {
        assert(history.line().len() == 0) by {
            if history.line().len() > 0 {
                assert(history.line().contains(history.line()[0]));
                assert(history.tickets.contains_key(history.line()[0]));
            }
        }
        assert(sizes_of(history.state.granted, history.tickets) =~= Seq::empty());
    }
}

} // verus!

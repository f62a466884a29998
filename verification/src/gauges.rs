//! The gauges that follow what a runtime has admitted and handed out.
//!
//! A permit moves its gauge up when it is acquired and down when it is released, and
//! the gauge of memory moves with the bytes that are handed out.
use vstd::prelude::*;

use crate::address::IpAddr;
use crate::limits::{NacelleLimits, Opening, PermitKind, RuntimeCounts, TrackedPermit};
use crate::memory::history::{MemoryHistory, MemoryUse};
use crate::telemetry::metric::{
    changes, gauge_moves, lemma_gauge_moves_add, lemma_gauge_moves_one, moved, moved_by, no_updates,
    one_update, MetricChange, MetricUpdate,
};

verus! {

/// The gauge that counts the permits of a kind.
pub open spec fn gauge_of(kind: PermitKind) -> &'static str {
    match kind {
        PermitKind::Connection { .. } => "nacelle.connections.active",
        PermitKind::Request => "nacelle.requests.active",
        PermitKind::StreamingTask => "nacelle.streaming_tasks.active",
    }
}

/// The gauge of the memory that is handed out.
pub open spec fn memory_gauge() -> &'static str {
    "nacelle.memory.used_bytes"
}

impl PermitKind {
    /// The gauge that counts the permits of this kind.
    pub fn gauge(self) -> (name: &'static str)
        ensures
            name == gauge_of(self),
    {
        match self {
            PermitKind::Connection { .. } => "nacelle.connections.active",
            PermitKind::Request => "nacelle.requests.active",
            PermitKind::StreamingTask => "nacelle.streaming_tasks.active",
        }
    }
}

/// The change that goes with a permit of a kind that is acquired or released.
pub open spec fn permit_change(kind: PermitKind, acquired: bool) -> MetricChange {
    moved(gauge_of(kind), Seq::empty(), acquired)
}

/// The change that goes with a permit that is acquired or released.
pub fn permit_update(permit: &TrackedPermit, acquired: bool) -> (update: MetricUpdate)
    ensures
        update@ == permit_change(permit@, acquired),
{
    let update = MetricUpdate::Gauge {
        name: permit.kind().gauge(),
        labels: Vec::new(),
        up: acquired,
        amount: 1,
    };
    assert(update@->Moved_labels =~= Seq::empty());
    update
}

/// The changes that go with memory of which `before` bytes were handed out, and
/// `after` are now.
pub open spec fn memory_changes(before: nat, after: nat) -> Seq<MetricChange> {
    if before < after {
        seq![moved_by(memory_gauge(), Seq::empty(), true, (after - before) as nat)]
    } else if after < before {
        seq![moved_by(memory_gauge(), Seq::empty(), false, (before - after) as nat)]
    } else {
        Seq::empty()
    }
}

/// The changes that go with memory of which `before` bytes were handed out, and
/// `after` are now.
pub fn memory_updates(before: usize, after: usize) -> (updates: Vec<MetricUpdate>)
    ensures
        changes(updates@) == memory_changes(before as nat, after as nat),
{
    if before == after {
        return no_updates();
    }
    let amount: usize = if before < after {
        after - before
    } else {
        before - after
    };
    let update = MetricUpdate::Gauge {
        name: "nacelle.memory.used_bytes",
        labels: Vec::new(),
        up: before < after,
        amount: amount as u64,
    };
    assert(update@->Moved_labels =~= Seq::empty());
    one_update(update)
}

/// One use of a runtime.
pub enum RuntimeUse {
    /// A connection asks to be admitted without regard to its peer.
    AcquireConnection,
    /// A connection of a peer, whose hash is `hash`, asks to be admitted at `tick`.
    OpenConnection { peer: IpAddr, tick: u32, hash: u64 },
    AcquireRequest,
    AcquireStreamingTask,
    /// A permit of a kind is released.
    Release(PermitKind),
}

/// Whether a use is possible: a permit that is released was out.
pub open spec fn possible(counts: RuntimeCounts, action: RuntimeUse) -> bool {
    action matches RuntimeUse::Release(kind) ==> counts.held(kind) > 0
}

/// What follows one use, and the changes that go with it.
pub open spec fn after_use(counts: RuntimeCounts, limits: NacelleLimits, action: RuntimeUse) -> (
    RuntimeCounts,
    Seq<MetricChange>,
) {
    match action {
        RuntimeUse::AcquireConnection => if counts.connections < limits.max_connections {
            (
                RuntimeCounts { connections: counts.connections + 1, ..counts },
                seq![permit_change(PermitKind::Connection { peer: None }, true)],
            )
        } else {
            (counts, Seq::empty())
        },
        RuntimeUse::OpenConnection { peer, tick, hash } => {
            let (after, answer) = counts.opening(limits, peer, tick, hash);
            match answer {
                Opening::Opened => (
                    after,
                    seq![permit_change(PermitKind::Connection { peer: Some(peer) }, true)],
                ),
                Opening::Refused(_) => (after, Seq::empty()),
            }
        },
        RuntimeUse::AcquireRequest => if counts.requests < limits.max_in_flight_requests {
            (
                RuntimeCounts { requests: counts.requests + 1, ..counts },
                seq![permit_change(PermitKind::Request, true)],
            )
        } else {
            (counts, Seq::empty())
        },
        RuntimeUse::AcquireStreamingTask => if counts.streaming_tasks < limits.max_streaming_tasks {
            (
                RuntimeCounts { streaming_tasks: counts.streaming_tasks + 1, ..counts },
                seq![permit_change(PermitKind::StreamingTask, true)],
            )
        } else {
            (counts, Seq::empty())
        },
        RuntimeUse::Release(kind) => (
            counts.released(limits, kind),
            seq![permit_change(kind, false)],
        ),
    }
}

/// Whether uses are possible one after another.
pub open spec fn all_possible(
    counts: RuntimeCounts,
    limits: NacelleLimits,
    actions: Seq<RuntimeUse>,
) -> bool
    decreases actions.len(),
{
    actions.len() == 0 || (all_possible(counts, limits, actions.drop_last()) && possible(
        after_uses(counts, limits, actions.drop_last()).0,
        actions.last(),
    ))
}

/// What follows uses one after another, and the changes that go with them.
pub open spec fn after_uses(counts: RuntimeCounts, limits: NacelleLimits, actions: Seq<RuntimeUse>) -> (
    RuntimeCounts,
    Seq<MetricChange>,
)
    decreases actions.len(),
{
    if actions.len() == 0 {
        (counts, Seq::empty())
    } else {
        let (before, earlier) = after_uses(counts, limits, actions.drop_last());
        let (after, last) = after_use(before, limits, actions.last());
        (after, earlier + last)
    }
}

proof fn lemma_gauges_differ()
    ensures
        "nacelle.connections.active"@ != "nacelle.requests.active"@,
        "nacelle.connections.active"@ != "nacelle.streaming_tasks.active"@,
        "nacelle.requests.active"@ != "nacelle.streaming_tasks.active"@,
{
    reveal_strlit("nacelle.connections.active");
    reveal_strlit("nacelle.requests.active");
    reveal_strlit("nacelle.streaming_tasks.active");
    assert("nacelle.connections.active"@.len() == 26);
    assert("nacelle.requests.active"@.len() == 23);
    assert("nacelle.streaming_tasks.active"@.len() == 30);
}

/// The gauges of a runtime follow its counters: whatever is admitted, refused and
/// released, each gauge has moved by what its counter has.
pub proof fn law_gauges_follow_the_counters(
    counts: RuntimeCounts,
    limits: NacelleLimits,
    actions: Seq<RuntimeUse>,
)
    requires
        all_possible(counts, limits, actions),
    ensures
        ({
            let (after, moves) = after_uses(counts, limits, actions);
            &&& gauge_moves(moves, "nacelle.connections.active"@, Seq::empty()) == after.connections
                - counts.connections
            &&& gauge_moves(moves, "nacelle.requests.active"@, Seq::empty()) == after.requests
                - counts.requests
            &&& gauge_moves(moves, "nacelle.streaming_tasks.active"@, Seq::empty())
                == after.streaming_tasks - counts.streaming_tasks
        }),
    decreases actions.len(),
{
    if actions.len() > 0 {
        law_gauges_follow_the_counters(counts, limits, actions.drop_last());
        lemma_gauges_differ();
        let (before, earlier) = after_uses(counts, limits, actions.drop_last());
        let (after, last) = after_use(before, limits, actions.last());
        let none = Seq::<(Seq<char>, Seq<char>)>::empty();
        lemma_gauge_moves_add(earlier, last, "nacelle.connections.active"@, none);
        lemma_gauge_moves_add(earlier, last, "nacelle.requests.active"@, none);
        lemma_gauge_moves_add(earlier, last, "nacelle.streaming_tasks.active"@, none);
        if last.len() > 0 {
            assert(last =~= seq![last[0]]);
            lemma_gauge_moves_one(last[0], "nacelle.connections.active"@, none);
            lemma_gauge_moves_one(last[0], "nacelle.requests.active"@, none);
            lemma_gauge_moves_one(last[0], "nacelle.streaming_tasks.active"@, none);
        }
    }
}

/// The changes that go with uses of a memory budget.
pub open spec fn changes_of_uses(history: MemoryHistory, actions: Seq<MemoryUse>) -> Seq<MetricChange>
    decreases actions.len(),
{
    if actions.len() == 0 {
        Seq::empty()
    } else {
        changes_of_uses(history, actions.drop_last()) + memory_changes(
            history.after_all(actions.drop_last()).state.used,
            history.after_all(actions).state.used,
        )
    }
}

/// The gauge of memory follows the bytes that are handed out, whatever a budget is
/// used for.
pub proof fn law_memory_gauge_follows_the_bytes(history: MemoryHistory, actions: Seq<MemoryUse>)
    ensures
        gauge_moves(changes_of_uses(history, actions), memory_gauge()@, Seq::empty())
            == history.after_all(actions).state.used - history.state.used,
    decreases actions.len(),
{
    if actions.len() > 0 {
        law_memory_gauge_follows_the_bytes(history, actions.drop_last());
        let none = Seq::<(Seq<char>, Seq<char>)>::empty();
        let last = memory_changes(
            history.after_all(actions.drop_last()).state.used,
            history.after_all(actions).state.used,
        );
        lemma_gauge_moves_add(
            changes_of_uses(history, actions.drop_last()),
            last,
            memory_gauge()@,
            none,
        );
        if last.len() > 0 {
            assert(last =~= seq![last[0]]);
            lemma_gauge_moves_one(last[0], memory_gauge()@, none);
        }
    }
}

/// The gauge of memory moves by exactly what was handed out more or less, and every
/// permit moves the gauge of its kind by one: up when it is given, down when it comes
/// back.
pub proof fn law_gauges_move_by_the_difference(
    before: nat,
    after: nat,
    kind: PermitKind,
    acquired: bool,
)
    ensures
        gauge_moves(memory_changes(before, after), "nacelle.memory.used_bytes"@, Seq::empty())
            == after - before,
        gauge_moves(seq![permit_change(kind, acquired)], gauge_of(kind)@, Seq::empty())
            == if acquired {
            1int
        } else {
            -1int
        },
        kind is Connection ==> gauge_of(kind)@ == "nacelle.connections.active"@,
        kind is Request ==> gauge_of(kind)@ == "nacelle.requests.active"@,
        kind is StreamingTask ==> gauge_of(kind)@ == "nacelle.streaming_tasks.active"@,
{
    let name = "nacelle.memory.used_bytes"@;
    lemma_gauge_moves_one(permit_change(kind, acquired), gauge_of(kind)@, Seq::empty());
    if before != after {
        lemma_gauge_moves_one(memory_changes(before, after)[0], name, Seq::empty());
        assert(memory_changes(before, after) =~= seq![memory_changes(before, after)[0]]);
    }
}

} // verus!

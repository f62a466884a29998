//! Changes to metrics, as plain values for whichever backend keeps them.
use vstd::prelude::*;

use crate::time::Duration;

verus! {

/// One label of a metric. Its view is the key with the value.
#[derive(Debug)]
pub struct Label {
    pub key: &'static str,
    pub value: String,
}

impl View for Label {
    type V = (Seq<char>, Seq<char>);

    open spec fn view(&self) -> (Seq<char>, Seq<char>) {
        (self.key@, self.value@)
    }
}

impl Label {
    pub fn new(key: &'static str, value: &str) -> (label: Self)
        ensures
            label@ == (key@, value@),
    {
        Self { key, value: value.to_owned() }
    }
}

impl Clone for Label {
    fn clone(&self) -> (copy: Self)
        ensures
            copy == self,
    {
        Self { key: self.key, value: self.value.clone() }
    }
}

/// Labels by their views.
pub open spec fn label_texts(labels: Seq<Label>) -> Seq<(Seq<char>, Seq<char>)> {
    labels.map_values(|label: Label| label@)
}

/// A change to one metric.
#[derive(Debug)]
pub enum MetricUpdate {
    /// A counter goes up.
    Counter { name: &'static str, labels: Vec<Label>, increment: u64 },
    /// A gauge moves.
    Gauge { name: &'static str, labels: Vec<Label>, up: bool, amount: u64 },
    /// A histogram of milliseconds takes in a span of time.
    Histogram { name: &'static str, labels: Vec<Label>, elapsed: Duration },
}

/// A change to one metric.
pub enum MetricChange {
    Counted { name: Seq<char>, labels: Seq<(Seq<char>, Seq<char>)>, increment: nat },
    Moved { name: Seq<char>, labels: Seq<(Seq<char>, Seq<char>)>, up: bool, amount: nat },
    Timed { name: Seq<char>, labels: Seq<(Seq<char>, Seq<char>)>, elapsed: nat },
}

impl View for MetricUpdate {
    type V = MetricChange;

    open spec fn view(&self) -> MetricChange {
        match self {
            MetricUpdate::Counter { name, labels, increment } => MetricChange::Counted {
                name: name@,
                labels: label_texts(labels@),
                increment: *increment as nat,
            },
            MetricUpdate::Gauge { name, labels, up, amount } => MetricChange::Moved {
                name: name@,
                labels: label_texts(labels@),
                up: *up,
                amount: *amount as nat,
            },
            MetricUpdate::Histogram { name, labels, elapsed } => MetricChange::Timed {
                name: name@,
                labels: label_texts(labels@),
                elapsed: elapsed@,
            },
        }
    }
}

/// Changes by their views.
pub open spec fn changes(updates: Seq<MetricUpdate>) -> Seq<MetricChange> {
    updates.map_values(|update: MetricUpdate| update@)
}

/// A counter goes up by `increment`.
pub open spec fn counted(
    name: &'static str,
    labels: Seq<(Seq<char>, Seq<char>)>,
    increment: nat,
) -> MetricChange {
    MetricChange::Counted { name: name@, labels, increment }
}

/// A gauge moves by one.
pub open spec fn moved(
    name: &'static str,
    labels: Seq<(Seq<char>, Seq<char>)>,
    up: bool,
) -> MetricChange {
    moved_by(name, labels, up, 1)
}

/// A gauge moves by `amount`.
pub open spec fn moved_by(
    name: &'static str,
    labels: Seq<(Seq<char>, Seq<char>)>,
    up: bool,
    amount: nat,
) -> MetricChange {
    MetricChange::Moved { name: name@, labels, up, amount }
}

/// A histogram takes in a span of time.
pub open spec fn timed(
    name: &'static str,
    labels: Seq<(Seq<char>, Seq<char>)>,
    elapsed: nat,
) -> MetricChange {
    MetricChange::Timed { name: name@, labels, elapsed }
}

/// The change, where `condition` holds.
pub open spec fn change_if(condition: bool, change: MetricChange) -> Seq<MetricChange> {
    if condition {
        seq![change]
    } else {
        Seq::empty()
    }
}

/// How far changes move the gauge called `name` with `labels`, up less down.
pub open spec fn gauge_moves(
    changes: Seq<MetricChange>,
    name: Seq<char>,
    labels: Seq<(Seq<char>, Seq<char>)>,
) -> int
    decreases changes.len(),
{
    if changes.len() == 0 {
        0
    } else {
        gauge_moves(changes.drop_last(), name, labels) + match changes.last() {
            MetricChange::Moved { name: own, labels: own_labels, up, amount } => if own == name
                && own_labels == labels {
                if up {
                    amount as int
                } else {
                    -(amount as int)
                }
            } else {
                0
            },
            _ => 0,
        }
    }
}

/// The moves of changes that follow each other add up.
pub proof fn lemma_gauge_moves_add(
    first: Seq<MetricChange>,
    second: Seq<MetricChange>,
    name: Seq<char>,
    labels: Seq<(Seq<char>, Seq<char>)>,
)
    ensures
        gauge_moves(first + second, name, labels) == gauge_moves(first, name, labels) + gauge_moves(
            second,
            name,
            labels,
        ),
    decreases second.len(),
{
    if second.len() == 0 {
        assert(first + second =~= first);
    } else {
        lemma_gauge_moves_add(first, second.drop_last(), name, labels);
        assert((first + second).drop_last() =~= first + second.drop_last());
    }
}

/// One change moves a gauge by what it is.
pub proof fn lemma_gauge_moves_one(
    change: MetricChange,
    name: Seq<char>,
    labels: Seq<(Seq<char>, Seq<char>)>,
)
    ensures
        gauge_moves(seq![change], name, labels) == match change {
            MetricChange::Moved { name: own, labels: own_labels, up, amount } => if own == name
                && own_labels == labels {
                if up {
                    amount as int
                } else {
                    -(amount as int)
                }
            } else {
                0
            },
            _ => 0,
        },
        gauge_moves(Seq::empty(), name, labels) == 0,
{
    reveal_with_fuel(gauge_moves, 2);
    assert(seq![change].drop_last() =~= Seq::empty());
}

/// One label.
pub fn one_label(key: &'static str, value: &str) -> (labels: Vec<Label>)
    ensures
        label_texts(labels@) == seq![(key@, value@)],
{
    let mut labels: Vec<Label> = Vec::new();
    labels.push(Label::new(key, value));
    assert(label_texts(labels@) =~= seq![(key@, value@)]);
    labels
}

/// Two labels.
pub fn two_labels(key: &'static str, value: &str, key2: &'static str, value2: &str) -> (labels: Vec<
    Label,
>)
    ensures
        label_texts(labels@) == seq![(key@, value@), (key2@, value2@)],
{
    let labels = attributes_with_label(&one_label(key, value), key2, value2);
    assert(label_texts(labels@) =~= seq![(key@, value@), (key2@, value2@)]);
    labels
}

/// The labels with one more behind them.
pub fn attributes_with_label(labels: &Vec<Label>, key: &'static str, value: &str) -> (combined: Vec<
    Label,
>)
    ensures
        label_texts(combined@) == label_texts(labels@).push((key@, value@)),
{
    let mut combined: Vec<Label> = Vec::new();
    let mut index: usize = 0;
    while index < labels.len()
        invariant
            index <= labels.len(),
            combined@ == labels@.take(index as int),
        decreases labels.len() - index,
    {
        combined.push(labels[index].clone());
        index += 1;
        assert(combined@ =~= labels@.take(index as int));
    }
    combined.push(Label::new(key, value));
    assert(label_texts(combined@) =~= label_texts(labels@).push((key@, value@)));
    combined
}

/// Appends a change.
pub fn push_update(updates: &mut Vec<MetricUpdate>, update: MetricUpdate)
    ensures
        changes(final(updates)@) == changes(old(updates)@).push(update@),
{
    updates.push(update);
    assert(changes(updates@) =~= changes(old(updates)@).push(update@));
}

/// No changes.
pub fn no_updates() -> (updates: Vec<MetricUpdate>)
    ensures
        changes(updates@) == Seq::<MetricChange>::empty(),
{
    let updates: Vec<MetricUpdate> = Vec::new();
    assert(changes(updates@) =~= Seq::<MetricChange>::empty());
    updates
}

/// One change.
pub fn one_update(update: MetricUpdate) -> (updates: Vec<MetricUpdate>)
    ensures
        changes(updates@) == seq![update@],
{
    let mut updates = no_updates();
    push_update(&mut updates, update);
    assert(changes(updates@) =~= seq![update@]);
    updates
}

} // verus!

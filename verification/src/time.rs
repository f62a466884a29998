//! Spans of time.
use vstd::prelude::*;

verus! {

pub open spec fn nanos_per_sec() -> nat {
    1_000_000_000
}

/// A span of time in whole nanoseconds, which is its view.
#[derive(Debug, Clone, Copy, PartialEq, Eq, Structural, Hash)]
pub struct Duration {
    secs: u64,
    nanos: u32,
}

impl View for Duration {
    type V = nat;

    closed spec fn view(&self) -> nat {
        self.secs as nat * nanos_per_sec() + self.nanos as nat
    }
}

impl Duration {
    #[verifier::type_invariant]
    spec fn wf(self) -> bool {
        self.nanos < nanos_per_sec()
    }

    /// A span of whole seconds.
    pub fn from_secs(secs: u64) -> (span: Self)
        ensures
            span@ == secs * nanos_per_sec(),
    {
        Self { secs, nanos: 0 }
    }

    /// A span of whole milliseconds.
    pub fn from_millis(millis: u64) -> (span: Self)
        ensures
            span@ == millis * 1_000_000,
    {
        let nanos: u64 = millis % 1000 * 1_000_000;
        Self { secs: millis / 1000, nanos: nanos as u32 }
    }

    /// A span of seconds and a fraction below one second; none for a larger fraction.
    pub fn checked_new(secs: u64, nanos: u32) -> (span: Option<Self>)
        ensures
            match span {
                Some(span) => nanos < nanos_per_sec() && span@ == secs * nanos_per_sec() + nanos,
                None => nanos >= nanos_per_sec(),
            },
    {
        if nanos < 1_000_000_000 {
            Some(Self { secs, nanos })
        } else {
            None
        }
    }

    /// The whole seconds of the span.
    pub fn as_secs(&self) -> (secs: u64)
        ensures
            secs == self@ / nanos_per_sec(),
    {
        proof {
            use_type_invariant(self);
        }
        self.secs
    }

    /// What the span holds beyond its whole seconds.
    pub fn subsec_nanos(&self) -> (nanos: u32)
        ensures
            nanos == self@ % nanos_per_sec(),
            nanos < nanos_per_sec(),
    {
        proof {
            use_type_invariant(self);
        }
        self.nanos
    }

    /// The whole milliseconds of the span.
    pub fn as_millis(&self) -> (millis: u128)
        ensures
            millis == self@ / 1_000_000,
    {
        proof {
            use_type_invariant(self);
        }
        let secs: u128 = self.secs as u128;
        let nanos: u128 = self.nanos as u128;
        secs * 1000 + nanos / 1_000_000
    }

    /// What is left of the span after `other`, or an empty one.
    pub fn saturating_sub(&self, other: Duration) -> (span: Self)
        ensures
            span@ == if self@ >= other@ {
                self@ - other@
            } else {
                0
            },
    {
        proof {
            use_type_invariant(self);
            use_type_invariant(&other);
        }
        if self.secs < other.secs || (self.secs == other.secs && self.nanos < other.nanos) {
            return Self { secs: 0, nanos: 0 };
        }
        if self.nanos >= other.nanos {
            Self { secs: self.secs - other.secs, nanos: self.nanos - other.nanos }
        } else {
            Self {
                secs: self.secs - other.secs - 1,
                nanos: 1_000_000_000 - (other.nanos - self.nanos),
            }
        }
    }

    /// Whether the span is empty.
    pub fn is_zero(&self) -> (zero: bool)
        ensures
            zero == (self@ == 0),
    {
        self.secs == 0 && self.nanos == 0
    }
}

/// Spans are made of whole seconds and of milliseconds, and give both back.
pub proof fn law_spans_give_back_what_they_are_made_of(
    count: u64,
    seconds: Duration,
    millis: Duration,
    whole: u64,
    thousands: u128,
)
    requires
        call_ensures(Duration::from_secs, (count,), seconds),
        call_ensures(Duration::from_millis, (count,), millis),
        call_ensures(Duration::as_secs, (&seconds,), whole),
        call_ensures(Duration::as_millis, (&millis,), thousands),
    ensures
        whole == count,
        thousands == count,
        seconds@ == 1000 * millis@,
{
}

/// What is left of a span and what was taken off make up the span, where it is long
/// enough; nothing is left of one that is not.
pub proof fn law_taking_off_leaves_the_rest(span: Duration, other: Duration, rest: Duration, zero: bool)
    requires
        call_ensures(Duration::saturating_sub, (&span, other), rest),
        call_ensures(Duration::is_zero, (&rest,), zero),
    ensures
        span@ >= other@ ==> rest@ + other@ == span@,
        zero <==> span@ <= other@,
{
}

} // verus!

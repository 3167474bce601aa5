//! Spans of time, and moments on a clock that never goes back.
use vstd::prelude::*;

verus! {

pub const NANOS_PER_SECOND: u128 = 1_000_000_000;

pub const NANOS_PER_MILLISECOND: u128 = 1_000_000;

/// A span of time, in nanoseconds.
#[derive(Clone, Copy, Debug, Eq, PartialEq, Structural)]
pub struct Span {
    pub nanos: u128,
}

/// A number of seconds as a span.
pub open spec fn seconds(n: nat) -> nat {
    n * NANOS_PER_SECOND as nat
}

impl Span {
    pub fn zero() -> (r: Span)
        ensures
            r.nanos == 0,
    {
        Span { nanos: 0 }
    }

    pub fn from_secs(n: u64) -> (r: Span)
        ensures
            r.nanos == seconds(n as nat),
    {
        Span { nanos: n as u128 * NANOS_PER_SECOND }
    }

    pub fn from_millis(n: u64) -> (r: Span)
        ensures
            r.nanos == n * NANOS_PER_MILLISECOND,
    {
        Span { nanos: n as u128 * NANOS_PER_MILLISECOND }
    }

    /// The whole seconds.
    pub open spec fn secs(self) -> nat {
        (self.nanos / NANOS_PER_SECOND) as nat
    }

    pub fn as_secs(self) -> (r: u128)
        ensures
            r == self.secs(),
    {
        self.nanos / NANOS_PER_SECOND
    }

    pub fn is_zero(self) -> (r: bool)
        ensures
            r == (self.nanos == 0),
    {
        self.nanos == 0
    }

    /// What is left of a span; nothing where more than all of it has passed.
    pub open spec fn less(self, passed: Span) -> Span {
        Span {
            nanos: if self.nanos >= passed.nanos {
                (self.nanos - passed.nanos) as u128
            } else {
                0
            },
        }
    }

    pub fn saturating_sub(self, passed: Span) -> (r: Span)
        ensures
            r == self.less(passed),
    {
        Span {
            nanos: if self.nanos >= passed.nanos {
                self.nanos - passed.nanos
            } else {
                0
            },
        }
    }

    pub open spec fn shorter(self, other: Span) -> Span {
        if self.nanos <= other.nanos {
            self
        } else {
            other
        }
    }

    pub fn min(self, other: Span) -> (r: Span)
        ensures
            r == self.shorter(other),
    {
        if self.nanos <= other.nanos {
            self
        } else {
            other
        }
    }
}

/// A moment, in nanoseconds since the clock's start.
#[derive(Clone, Copy, Debug, Eq, PartialEq, Structural)]
pub struct Moment {
    pub nanos: u128,
}

impl Moment {
    /// The time from an earlier moment to this one; none where that one is later.
    pub open spec fn after(self, earlier: Moment) -> Span {
        Span { nanos: self.nanos }.less(Span { nanos: earlier.nanos })
    }

    pub fn saturating_duration_since(self, earlier: Moment) -> (r: Span)
        ensures
            r == self.after(earlier),
    {
        Span { nanos: self.nanos }.saturating_sub(Span { nanos: earlier.nanos })
    }

    /// The clock reaches the moment that is a span after this one.
    pub open spec fn can_add(self, span: nat) -> bool {
        self.nanos + span <= u128::MAX
    }

    pub fn plus(self, span: Span) -> (r: Moment)
        requires
            self.can_add(span.nanos as nat),
        ensures
            r.nanos == self.nanos + span.nanos,
    {
        Moment { nanos: self.nanos + span.nanos }
    }
}

/// The time from one moment to a later one is what lies between them; towards an
/// earlier one it is none. A second has a thousand million nanoseconds.
pub proof fn time_is_what_lies_between(now: Moment, earlier: Moment, span: Span, n: nat)
    ensures
        earlier.nanos <= now.nanos ==> earlier.nanos + now.after(earlier).nanos == now.nanos,
        now.nanos <= earlier.nanos ==> now.after(earlier).nanos == 0,
        seconds(n) == n * 1_000_000_000,
        span.secs() * 1_000_000_000 <= span.nanos < (span.secs() + 1) * 1_000_000_000,
{
}

/// What is left of a span and what has passed make up the span, as long as no
/// more has passed. The shorter of two spans is one of them, and no longer than
/// either.
pub proof fn what_is_left_and_what_passed_make_up_the_span(span: Span, passed: Span)
    ensures
        passed.nanos <= span.nanos ==> span.less(passed).nanos + passed.nanos == span.nanos,
        passed.nanos >= span.nanos ==> span.less(passed).nanos == 0,
        span.shorter(passed) == span || span.shorter(passed) == passed,
        span.shorter(passed).nanos <= span.nanos,
        span.shorter(passed).nanos <= passed.nanos,
{
}

/// A second has a thousand million nanoseconds. Counting a span in seconds leaves
/// out what is less than one.
pub proof fn seconds_are_counted_whole(n: nat, span: Span)
    ensures
        seconds(n) == 1_000_000_000 * n,
        1_000_000_000 * span.secs() <= span.nanos < 1_000_000_000 * (span.secs() + 1),
        span.nanos == seconds(n) ==> span.secs() == n,
{
}

} // verus!

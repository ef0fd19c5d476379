//! A logical clock: instants and durations counted in whole nanoseconds.
//!
//! Nothing in this crate reads a wall clock. Every state machine is handed
//! the current instant by its caller, so an instant is simply a number of
//! nanoseconds since an origin that the caller picks.

use vstd::prelude::*;

verus! {

/// The number of nanoseconds in one second.
pub const NANOS_PER_SEC: u64 = 1_000_000_000;

/// The number of nanoseconds in one millisecond.
pub const NANOS_PER_MILLI: u64 = 1_000_000;

/// A span of time, in nanoseconds.
#[derive(Clone, Copy, Debug, PartialEq, Eq, Hash, PartialOrd, Ord, Structural)]
pub struct Duration {
    pub nanos: u64,
}

/// A point on the logical clock, in nanoseconds since the caller's origin.
#[derive(Clone, Copy, Debug, PartialEq, Eq, Hash, PartialOrd, Ord, Structural)]
pub struct Instant {
    pub nanos: u64,
}

/// `a + b`, held at `u64::MAX` where the sum does not fit.
pub open spec fn saturating_sum(a: u64, b: u64) -> u64 {
    if a + b > u64::MAX {
        u64::MAX
    } else {
        (a + b) as u64
    }
}

/// `a * b`, held at `u64::MAX` where the product does not fit.
pub open spec fn saturating_product(a: u64, b: u64) -> u64 {
    if a * b > u64::MAX {
        u64::MAX
    } else {
        (a * b) as u64
    }
}

/// `a - b`, held at zero where `b` is the larger.
pub open spec fn saturating_difference(a: u64, b: u64) -> u64 {
    if a < b {
        0
    } else {
        (a - b) as u64
    }
}

fn mul_saturating(a: u64, b: u64) -> (r: u64)
    ensures
        r == saturating_product(a, b),
{
    if a == 0 || b == 0 {
        assert(a * b == 0) by (nonlinear_arith)
            requires
                a == 0 || b == 0,
        ;
        return 0;
    }
    let limit: u64 = u64::MAX / b;
    if a > limit {
        assert(a * b > u64::MAX) by (nonlinear_arith)
            requires
                a >= limit + 1,
                limit == u64::MAX / b,
                b > 0,
        ;
        u64::MAX
    } else {
        assert(a * b <= u64::MAX) by (nonlinear_arith)
            requires
                a <= limit,
                limit == u64::MAX / b,
                b > 0,
        ;
        a * b
    }
}

fn add_saturating(a: u64, b: u64) -> (r: u64)
    ensures
        r == saturating_sum(a, b),
{
    if a > u64::MAX - b {
        u64::MAX
    } else {
        a + b
    }
}

impl Duration {
    /// The empty span.
    pub fn zero() -> (d: Duration)
        ensures
            d.nanos == 0,
    {
        Duration { nanos: 0 }
    }

    pub open spec fn spec_from_secs(secs: u64) -> Duration {
        Duration { nanos: saturating_product(secs, NANOS_PER_SEC) }
    }

    /// A span of `secs` seconds; the longest span there is, where that many
    /// seconds cannot be counted in nanoseconds.
    #[verifier::when_used_as_spec(spec_from_secs)]
    pub fn from_secs(secs: u64) -> (d: Duration)
        ensures
            d == Self::spec_from_secs(secs),
    {
        Duration { nanos: mul_saturating(secs, NANOS_PER_SEC) }
    }

    pub open spec fn spec_from_millis(millis: u64) -> Duration {
        Duration { nanos: saturating_product(millis, NANOS_PER_MILLI) }
    }

    /// A span of `millis` milliseconds, saturating like [`Duration::from_secs`].
    #[verifier::when_used_as_spec(spec_from_millis)]
    pub fn from_millis(millis: u64) -> (d: Duration)
        ensures
            d == Self::spec_from_millis(millis),
    {
        Duration { nanos: mul_saturating(millis, NANOS_PER_MILLI) }
    }

    /// A span of `nanos` nanoseconds.
    pub fn from_nanos(nanos: u64) -> (d: Duration)
        ensures
            d.nanos == nanos,
    {
        Duration { nanos }
    }

    /// The span in nanoseconds.
    pub fn as_nanos(&self) -> (n: u64)
        ensures
            n == self.nanos,
    {
        self.nanos
    }

    /// The whole seconds in the span.
    pub fn as_secs(&self) -> (s: u64)
        ensures
            s == self.nanos / NANOS_PER_SEC,
    {
        self.nanos / NANOS_PER_SEC
    }

    /// Whether the span is empty.
    pub fn is_zero(&self) -> (z: bool)
        ensures
            z == (self.nanos == 0),
    {
        self.nanos == 0
    }

    pub open spec fn spec_plus(self, other: Duration) -> Duration {
        Duration { nanos: saturating_sum(self.nanos, other.nanos) }
    }

    /// The two spans one after the other, saturating at the longest span.
    #[verifier::when_used_as_spec(spec_plus)]
    pub fn plus(self, other: Duration) -> (d: Duration)
        ensures
            d == self.spec_plus(other),
    {
        Duration { nanos: add_saturating(self.nanos, other.nanos) }
    }

    pub open spec fn spec_half(self) -> Duration {
        Duration { nanos: self.nanos / 2 }
    }

    /// Half the span, rounded down to a whole nanosecond.
    #[verifier::when_used_as_spec(spec_half)]
    pub fn half(self) -> (d: Duration)
        ensures
            d == self.spec_half(),
    {
        Duration { nanos: self.nanos / 2 }
    }
}

impl Instant {
    /// The instant `nanos` nanoseconds after the origin.
    pub fn from_nanos(nanos: u64) -> (t: Instant)
        ensures
            t.nanos == nanos,
    {
        Instant { nanos }
    }

    pub open spec fn spec_plus(self, d: Duration) -> Instant {
        Instant { nanos: saturating_sum(self.nanos, d.nanos) }
    }

    /// The instant `d` after this one; the last instant of the clock where
    /// the clock cannot count that far.
    #[verifier::when_used_as_spec(spec_plus)]
    pub fn plus(self, d: Duration) -> (t: Instant)
        ensures
            t == self.spec_plus(d),
    {
        Instant { nanos: add_saturating(self.nanos, d.nanos) }
    }

    pub open spec fn spec_duration_since(self, earlier: Instant) -> Duration {
        Duration { nanos: saturating_difference(self.nanos, earlier.nanos) }
    }

    /// The time from `earlier` to this instant, or the empty span where
    /// `earlier` is in fact the later of the two.
    #[verifier::when_used_as_spec(spec_duration_since)]
    pub fn duration_since(self, earlier: Instant) -> (d: Duration)
        ensures
            d == self.spec_duration_since(earlier),
    {
        if self.nanos < earlier.nanos {
            Duration { nanos: 0 }
        } else {
            Duration { nanos: self.nanos - earlier.nanos }
        }
    }
}

/// The earlier of two optional deadlines, taking an absent one as "never".
pub open spec fn spec_earliest(a: Option<Instant>, b: Option<Instant>) -> Option<Instant> {
    match (a, b) {
        (None, None) => None,
        (Some(x), None) => Some(x),
        (None, Some(y)) => Some(y),
        (Some(x), Some(y)) => if x.nanos <= y.nanos {
            Some(x)
        } else {
            Some(y)
        },
    }
}

/// The earlier of two optional deadlines, taking an absent one as "never".
#[verifier::when_used_as_spec(spec_earliest)]
pub fn earliest(a: Option<Instant>, b: Option<Instant>) -> (r: Option<Instant>)
    ensures
        r == spec_earliest(a, b),
{
    match (a, b) {
        (None, None) => None,
        (Some(x), None) => Some(x),
        (None, Some(y)) => Some(y),
        (Some(x), Some(y)) => if x.nanos <= y.nanos {
            Some(x)
        } else {
            Some(y)
        },
    }
}

} // verus!

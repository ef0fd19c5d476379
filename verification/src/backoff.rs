//! Exponential backoff on the logical clock.
//!
//! Each wait is one and a half times the wait before it. The waits carry no
//! jitter, so the schedule is a function of the instant at which the backoff
//! was started and of the instants at which it is asked for its next wait.
//!
//! The schedule is the one that the `backoff` crate keeps where it is told
//! to add no jitter. That crate reads the time from a clock of its own kind
//! and computes in floating point, rounding a random fraction of a
//! nanosecond into every wait, so its waits are not a function of what it
//! is handed; here the same rule is stated in whole nanoseconds and proved.

use vstd::prelude::*;
use crate::time::{Duration, Instant};

verus! {

/// No wait is longer than this many nanoseconds (one minute).
pub const MAX_INTERVAL_NANOS: u64 = 60_000_000_000;

/// A backoff gives up once this many nanoseconds (one minute) would have
/// gone by since it was started.
pub const MAX_ELAPSED_NANOS: u64 = 60_000_000_000;

/// The state of one backoff: when it started, what it hands out next, and
/// what time it is.
#[derive(Clone, Copy, Debug, PartialEq, Eq, Structural)]
pub struct ExponentialBackoff {
    /// The wait that the next call hands out.
    pub current_interval: Duration,
    /// The first wait.
    pub initial_interval: Duration,
    /// The longest wait.
    pub max_interval: Duration,
    /// When the backoff was started.
    pub start_time: Instant,
    /// How long after its start the backoff is worn out.
    pub max_elapsed_time: Duration,
    /// The backoff's own clock; it moves only through [`ExponentialBackoff::advance_to`].
    pub now: Instant,
}

/// The wait that follows `interval`: one and a half times as long, rounded
/// down to a nanosecond, and never longer than `max`.
pub open spec fn spec_grow(interval: Duration, max: Duration) -> Duration {
    if interval.nanos * 3 >= max.nanos * 2 {
        max
    } else {
        Duration { nanos: (interval.nanos * 3 / 2) as u64 }
    }
}

fn grow(interval: Duration, max: Duration) -> (next: Duration)
    ensures
        next == spec_grow(interval, max),
{
    let tripled: u128 = interval.nanos as u128 * 3;
    let limit: u128 = max.nanos as u128 * 2;
    if tripled >= limit {
        max
    } else {
        Duration { nanos: (tripled / 2) as u64 }
    }
}

impl ExponentialBackoff {
    /// How long the backoff has been running by its own clock.
    pub open spec fn elapsed(&self) -> Duration {
        self.now.spec_duration_since(self.start_time)
    }

    /// What the next call of [`ExponentialBackoff::next_backoff`] returns.
    ///
    /// The backoff is worn out once more than the allowed time has gone by,
    /// or once the wait it would hand out would end after that time.
    pub open spec fn spec_next(&self) -> Option<Duration> {
        if self.elapsed().nanos > self.max_elapsed_time.nanos {
            None
        } else if self.elapsed().nanos + self.current_interval.nanos <= self.max_elapsed_time.nanos {
            Some(self.current_interval)
        } else {
            None
        }
    }

    /// The backoff after the next call of [`ExponentialBackoff::next_backoff`].
    ///
    /// A backoff that is already past its time stays as it is; any other
    /// moves on to its next wait, whether or not it handed the current one out.
    pub open spec fn spec_after_next(&self) -> ExponentialBackoff {
        if self.elapsed().nanos > self.max_elapsed_time.nanos {
            *self
        } else {
            ExponentialBackoff {
                current_interval: spec_grow(self.current_interval, self.max_interval),
                ..*self
            }
        }
    }

    /// The next wait, or `None` once the backoff is worn out.
    pub fn next_backoff(&mut self) -> (wait: Option<Duration>)
        ensures
            wait == old(self).spec_next(),
            *final(self) == old(self).spec_after_next(),
    {
        let elapsed = self.now.duration_since(self.start_time);
        if elapsed.nanos > self.max_elapsed_time.nanos {
            return None;
        }
        let interval = self.current_interval;
        self.current_interval = grow(self.current_interval, self.max_interval);
        if interval.nanos <= self.max_elapsed_time.nanos - elapsed.nanos {
            Some(interval)
        } else {
            None
        }
    }

    /// Sets the backoff's clock to `now`.
    pub fn advance_to(&mut self, now: Instant)
        ensures
            *final(self) == (ExponentialBackoff { now, ..*old(self) }),
    {
        self.now = now;
    }
}

/// The backoff that `new` builds.
pub open spec fn spec_new(now: Instant, initial_interval: Duration) -> ExponentialBackoff {
    ExponentialBackoff {
        current_interval: initial_interval,
        initial_interval,
        max_interval: Duration { nanos: MAX_INTERVAL_NANOS },
        start_time: now,
        max_elapsed_time: Duration { nanos: MAX_ELAPSED_NANOS },
        now,
    }
}

/// A backoff started at `now` whose first wait is `initial_interval`.
#[verifier::when_used_as_spec(spec_new)]
pub fn new(now: Instant, initial_interval: Duration) -> (backoff: ExponentialBackoff)
    ensures
        backoff == spec_new(now, initial_interval),
{
    ExponentialBackoff {
        current_interval: initial_interval,
        initial_interval,
        max_interval: Duration { nanos: MAX_INTERVAL_NANOS },
        start_time: now,
        max_elapsed_time: Duration { nanos: MAX_ELAPSED_NANOS },
        now,
    }
}

/// Waits never shrink to nothing: a backoff that holds a wait of at least a
/// nanosecond, under a longest wait of at least a nanosecond, holds one again
/// after every call.
pub proof fn lemma_wait_stays_positive(backoff: ExponentialBackoff)
    requires
        backoff.current_interval.nanos > 0,
        backoff.max_interval.nanos > 0,
    ensures
        backoff.spec_after_next().current_interval.nanos > 0,
        backoff.spec_after_next().max_interval == backoff.max_interval,
{
}

} // verus!

use std::cell::Cell;
use std::rc::Rc;
use std::time::Duration as StdDuration;

use backoff::backoff::Backoff;
use connlib::time::{Duration, Instant};

/// A clock for the backoff crate that shows what it is told.
struct ManualClock {
    now: Rc<Cell<std::time::Instant>>,
}

impl backoff::Clock for ManualClock {
    fn now(&self) -> std::time::Instant {
        self.now.get()
    }
}

/// Runs this crate's backoff and the backoff crate's side by side, each on
/// its own clock, both clocks moved on by `elapse(wait)` after every wait,
/// and returns how many waits both handed out before both gave up.
fn waits_side_by_side(initial: StdDuration, elapse: fn(u64) -> u64) -> usize {
    let base = std::time::Instant::now();
    let their_now = Rc::new(Cell::new(base));
    let mut theirs = backoff::exponential::ExponentialBackoff {
        current_interval: initial,
        initial_interval: initial,
        randomization_factor: 0.0,
        multiplier: 1.5,
        max_interval: StdDuration::from_secs(60),
        start_time: base,
        max_elapsed_time: Some(StdDuration::from_secs(60)),
        clock: ManualClock {
            now: their_now.clone(),
        },
    };
    let mut our_now = Instant::from_nanos(7);
    let mut ours = connlib::backoff::new(our_now, Duration::from_nanos(initial.as_nanos() as u64));

    let mut waits = 0;
    loop {
        ours.advance_to(our_now);
        match (ours.next_backoff(), theirs.next_backoff()) {
            (Some(our_wait), Some(their_wait)) => {
                // The backoff crate adds a random fraction of a nanosecond
                // before it rounds down, which on rare draws rounds up.
                let their_wait = their_wait.as_nanos() as u64;
                assert!(
                    their_wait == our_wait.nanos || their_wait == our_wait.nanos + 1,
                    "wait {waits}: {} and {their_wait}",
                    our_wait.nanos
                );
                let step = elapse(our_wait.nanos);
                our_now = our_now.plus(Duration::from_nanos(step));
                their_now.set(their_now.get() + StdDuration::from_nanos(step));
                waits += 1;
            }
            (None, None) => {
                if our_now.nanos > 200_000_000_000 {
                    return waits;
                }
                our_now = our_now.plus(Duration::from_secs(30));
                their_now.set(their_now.get() + StdDuration::from_secs(30));
            }
            (ours, theirs) => panic!("wait {waits}: {ours:?} and {theirs:?}"),
        }
    }
}

#[test]
fn backoff_agrees_with_the_backoff_crate() {
    assert_eq!(waits_side_by_side(StdDuration::from_secs(1), |wait| wait), 8);
    assert_eq!(waits_side_by_side(StdDuration::from_secs(5), |wait| wait), 4);
    assert_eq!(waits_side_by_side(StdDuration::from_millis(250), |wait| wait), 11);
    waits_side_by_side(StdDuration::from_secs(1), |wait| wait / 2);
    waits_side_by_side(StdDuration::from_secs(1), |wait| wait * 3);
    waits_side_by_side(StdDuration::from_nanos(1_333_333_333), |wait| wait + 17);
    waits_side_by_side(StdDuration::from_secs(45), |_| 1_000_000_000);
    waits_side_by_side(StdDuration::from_secs(61), |wait| wait);
}

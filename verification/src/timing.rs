//! Time, as the rules count it.
//!
//! Time is a whole number of steps, `TIME_PER_SECOND` to the second. The step
//! is chosen so that every interval of the rules is a whole number of steps.

use vstd::prelude::*;

verus! {

/// Steps in one second.
pub const TIME_PER_SECOND: u64 = 3_000_000;

/// How long full rows flash before they are taken out: 0.27 s.
pub const LINE_CLEAR_DELAY: u64 = 810_000;

/// Half a blink of a bonus square: 0.3 s.
pub const BLINK_PERIOD: u64 = 900_000;

/// How long a direction is held before the piece starts to run: 0.2 s.
pub const INITIAL_HORIZONTAL_DELAY: u64 = 600_000;

/// The time between two steps of a running piece: 0.1 s.
pub const HORIZONTAL_REPEAT_DELAY: u64 = 300_000;

/// Rows per second of a piece that is dropped softly.
pub const SOFT_DROP_SPEED: u64 = 15;

/// What is left of a countdown after `dt` has passed. A countdown stops at
/// zero.
pub open spec fn counted_down(timer: nat, dt: nat) -> nat {
    if timer <= dt {
        0
    } else {
        (timer - dt) as nat
    }
}

/// A stopwatch after `dt` more has passed. It stops at the largest value it
/// can hold.
pub open spec fn run_on(timer: nat, dt: nat) -> nat {
    if timer + dt >= u64::MAX {
        u64::MAX as nat
    } else {
        timer + dt
    }
}

/// Lets `dt` pass on a countdown.
pub fn count_down(timer: u64, dt: u64) -> (r: u64)
    ensures
        r == counted_down(timer as nat, dt as nat),
{
    timer.saturating_sub(dt)
}

/// Lets `dt` pass on a stopwatch.
pub fn run_stopwatch(timer: u64, dt: u64) -> (r: u64)
    ensures
        r == run_on(timer as nat, dt as nat),
{
    timer.saturating_add(dt)
}

} // verus!

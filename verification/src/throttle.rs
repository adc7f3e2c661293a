//! Restart throttle: bounds how often the supervised command is respawned.

use vstd::prelude::*;

verus! {

/// Shortest time, in nanoseconds, that one supervision cycle may take.
pub const MIN_CYCLE_NANOS: u64 = 1_000_000_000;

/// Time left to sleep, in nanoseconds, once a cycle has run for `elapsed`
/// nanoseconds: what is missing to a full minimum cycle, and nothing when the
/// cycle already took that long.
pub open spec fn remaining(elapsed: int) -> int {
    if elapsed >= MIN_CYCLE_NANOS {
        0
    } else {
        MIN_CYCLE_NANOS - elapsed
    }
}

/// Computes the sleep that must follow a cycle which took `elapsed_nanos`.
///
/// The subtraction is only made when it cannot underflow; a cycle that ran
/// for the minimum duration or longer is followed by no sleep at all.
pub fn remaining_sleep(elapsed_nanos: u128) -> (sleep: u64)
    ensures
        sleep == remaining(elapsed_nanos as int),
        sleep <= MIN_CYCLE_NANOS,
        elapsed_nanos + sleep >= MIN_CYCLE_NANOS,
{
    if elapsed_nanos >= 1_000_000_000u128 {
        0
    } else {
        let spent: u64 = elapsed_nanos as u64;
        MIN_CYCLE_NANOS - spent
    }
}

/// Time that a run of cycles takes in all, each followed by the sleep that
/// the throttle gives it, where `elapsed` lists how long each cycle ran.
pub open spec fn throttled_time(elapsed: Seq<int>) -> int
    decreases elapsed.len(),
{
    if elapsed.len() == 0 {
        0
    } else {
        throttled_time(elapsed.drop_last()) + elapsed.last() + remaining(elapsed.last())
    }
}

/// The sleep is never negative, and a cycle with its sleep takes the minimum
/// cycle time or, where the cycle alone ran longer, the time that it ran.
pub proof fn lemma_cycle_is_long_enough(elapsed: int)
    ensures
        remaining(elapsed) >= 0,
        elapsed + remaining(elapsed) >= MIN_CYCLE_NANOS,
        elapsed >= 0 ==> remaining(elapsed) <= MIN_CYCLE_NANOS,
        elapsed + remaining(elapsed) == if elapsed >= MIN_CYCLE_NANOS {
            elapsed
        } else {
            MIN_CYCLE_NANOS as int
        },
{
}

/// However quickly the supervised command ends, a run of cycles takes at
/// least the minimum cycle time for each of them.
pub proof fn lemma_respawn_rate_is_bounded(elapsed: Seq<int>)
    ensures
        throttled_time(elapsed) >= elapsed.len() * MIN_CYCLE_NANOS,
    decreases elapsed.len(),
{
    if elapsed.len() > 0 {
        lemma_respawn_rate_is_bounded(elapsed.drop_last());
    }
}

} // verus!

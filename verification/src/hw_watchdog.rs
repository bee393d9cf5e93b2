//! Hardware watchdog timer.
//!
//! A single stage that resets the chip unless it is fed in time; the task that
//! feeds it stops with the executor.

use vstd::prelude::*;

verus! {

pub const STAGE0_TIMEOUT_SEC: u64 = 8;

pub const FEED_PERIOD_MS: u64 = 1_000;

/// Timeout of the stage in microseconds.
pub fn stage0_timeout_us() -> (us: u64)
    ensures
        us == STAGE0_TIMEOUT_SEC * 1_000_000,
{
    STAGE0_TIMEOUT_SEC * 1_000_000
}

/// A task that is delayed by less than the given number of further feed
/// periods keeps the chip running.
pub proof fn law_feeding_keeps_up(missed: nat)
    requires
        missed < 7,
    ensures
        (missed + 1) * FEED_PERIOD_MS < STAGE0_TIMEOUT_SEC * 1_000,
{
}

} // verus!

//! The opto-isolated inputs.

use vstd::prelude::*;

verus! {

/// The port bits that read an input.
pub const MASK: u8 = 0x3F;

/// Time between two reads of the inputs.
pub const POLL_PERIOD_MS: u64 = 100;

/// Whether an open input engages the safety interlock.
pub const ARM_SAFETY: bool = true;

} // verus!

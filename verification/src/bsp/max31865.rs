//! The Pt100 frontend.

use vstd::prelude::*;

verus! {

/// Time between two temperature samples.
pub const SAMPLE_PERIOD_MS: u64 = 1000;

} // verus!

//! PCF8574 addresses: base 0x20, strapped by A0..A2.

use vstd::prelude::*;

verus! {

/// Output expander that drives the 6 relays.
pub const RELAY_EXPANDER: u8 = 0x24;

/// Input expander that reads the 6 opto-isolated digital inputs.
pub const INPUT_EXPANDER: u8 = 0x22;

} // verus!

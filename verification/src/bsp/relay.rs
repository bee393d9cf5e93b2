//! Relay bits of the output expander, nets OT1..OT6 on P0..P5.
//!
//! The bus logic is active-low: a `0` bit energises the relay.

use vstd::prelude::*;

verus! {

pub const COUNT: usize = 6;

pub const BITS: [u8; 6] = [0, 1, 2, 3, 4, 5];

/// Port value with every relay released.
pub const IDLE_PORT_VALUE: u8 = 0xFF;

/// The port bits that drive a relay.
pub const RELAY_BITS: u8 = 0x3F;

} // verus!

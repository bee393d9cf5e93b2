//! Active-low relay bits.

use vstd::prelude::*;

use crate::bsp::relay::{COUNT, IDLE_PORT_VALUE};
use crate::pcf8574::with_bit;
use crate::relays::{apply_set, apply_set_mask, mask_port};

verus! {

/// Port and relay bit after one relay was switched.
pub open spec fn switched(shadow: u8, index: u8, on: bool) -> Option<(u8, u8)> {
    if index < COUNT {
        Some((with_bit(shadow, index, !on), if on { 1u8 << index } else { 0u8 }))
    } else {
        None
    }
}

/// The values that the suite checks.
pub open spec fn expectations() -> bool {
    &&& switched(IDLE_PORT_VALUE, 0, true) == Some((0xFEu8, 0x01u8))
    &&& switched(0xFE, 0, false) == Some((0xFFu8, 0x00u8))
    &&& switched(IDLE_PORT_VALUE, 5, true) == Some((0xDFu8, 0x20u8))
    &&& switched(IDLE_PORT_VALUE, 6, true) is None
    &&& switched(IDLE_PORT_VALUE, 255, false) is None
    &&& switched(0xFE, 3, true) == Some((0xF6u8, 0x08u8))
    &&& mask_port(0x0F) == 0xF0
    &&& mask_port(0x00) == 0xFF
    &&& mask_port(0xFF) == 0xC0
    &&& mask_port(0x3F) == 0xC0
}

/// The suite passes.
pub proof fn lemma_expectations()
    ensures
        expectations(),
{
    assert({
        &&& 0xFFu8 & !(1u8 << 0u8) == 0xFE
        &&& 1u8 << 0u8 == 1u8
        &&& 0xFEu8 | (1u8 << 0u8) == 0xFF
        &&& 0xFFu8 & !(1u8 << 5u8) == 0xDF
        &&& 1u8 << 5u8 == 0x20
        &&& 0xFEu8 & !(1u8 << 3u8) == 0xF6
        &&& 1u8 << 3u8 == 0x08
        &&& (!0x0Fu8 & 0x3F) | !0x3Fu8 == 0xF0
        &&& (!0x00u8 & 0x3F) | !0x3Fu8 == 0xFF
        &&& (!0xFFu8 & 0x3F) | !0x3Fu8 == 0xC0
        &&& (!0x3Fu8 & 0x3F) | !0x3Fu8 == 0xC0
    }) by (bit_vector);
}

fn gives(shadow: u8, index: u8, on: bool, port: u8, on_bit: u8) -> (same: bool)
    ensures
        same == (switched(shadow, index, on) == Some((port, on_bit))),
{
    match apply_set(shadow, index, on) {
        Some((p, b)) => p == port && b == on_bit,
        None => false,
    }
}

/// Run the suite.
pub fn run_all() -> (outcome: Result<(), &'static str>)
    ensures
        outcome is Ok <==> expectations(),
        outcome is Ok,
{
    proof {
        lemma_expectations();
    }
    if !gives(IDLE_PORT_VALUE, 0, true, 0xFE, 0x01) || !gives(0xFE, 0, false, 0xFF, 0x00) || !gives(
        IDLE_PORT_VALUE,
        5,
        true,
        0xDF,
        0x20,
    ) {
        return Err("relay bit");
    }
    if apply_set(IDLE_PORT_VALUE, 6, true).is_some() || apply_set(
        IDLE_PORT_VALUE,
        255,
        false,
    ).is_some() {
        return Err("invalid index");
    }
    if !gives(0xFE, 3, true, 0xF6, 0x08) {
        return Err("two relays");
    }
    if apply_set_mask(0x0F) != 0xF0 || apply_set_mask(0x00) != 0xFF || apply_set_mask(0xFF) != 0xC0
        || apply_set_mask(0x3F) != 0xC0 {
        return Err("relay mask");
    }
    Ok(())
}

} // verus!

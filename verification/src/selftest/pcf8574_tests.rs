//! Shadow register of the port expander.

use vstd::prelude::*;

use crate::pcf8574::{set_bit, with_bit};

verus! {

/// The values that the suite checks.
pub open spec fn expectations() -> bool {
    &&& with_bit(0x00, 0, true) == 0x01
    &&& with_bit(0x00, 7, true) == 0x80
    &&& with_bit(0xF0, 3, true) == 0xF8
    &&& with_bit(0xFF, 0, false) == 0xFE
    &&& with_bit(0xFF, 7, false) == 0x7F
    &&& with_bit(0x0F, 3, false) == 0x07
    &&& with_bit(0x01, 0, true) == 0x01
    &&& with_bit(0xFE, 0, false) == 0xFE
}

/// The suite passes.
pub proof fn lemma_expectations()
    ensures
        expectations(),
{
    assert({
        &&& 0x00u8 | (1u8 << 0u8) == 0x01
        &&& 0x00u8 | (1u8 << 7u8) == 0x80
        &&& 0xF0u8 | (1u8 << 3u8) == 0xF8
        &&& 0xFFu8 & !(1u8 << 0u8) == 0xFE
        &&& 0xFFu8 & !(1u8 << 7u8) == 0x7F
        &&& 0x0Fu8 & !(1u8 << 3u8) == 0x07
        &&& 0x01u8 | (1u8 << 0u8) == 0x01
        &&& 0xFEu8 & !(1u8 << 0u8) == 0xFE
    }) by (bit_vector);
}

/// Run the suite.
pub fn run_all() -> (outcome: Result<(), &'static str>)
    ensures
        outcome is Ok <==> expectations(),
        outcome is Ok,
{
    proof {
        lemma_expectations();
    }
    if set_bit(0x00, 0, true) != 0x01 || set_bit(0x00, 7, true) != 0x80 || set_bit(0xF0, 3, true)
        != 0xF8 {
        return Err("set_bit high");
    }
    if set_bit(0xFF, 0, false) != 0xFE || set_bit(0xFF, 7, false) != 0x7F || set_bit(0x0F, 3, false)
        != 0x07 {
        return Err("set_bit low");
    }
    if set_bit(0x01, 0, true) != 0x01 || set_bit(0xFE, 0, false) != 0xFE {
        return Err("set_bit is not idempotent");
    }
    Ok(())
}

} // verus!

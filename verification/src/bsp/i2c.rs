//! I2C bus: PCF8574 expanders, OLED slot, RTC.

use vstd::prelude::*;

verus! {

pub const SDA: u8 = 4;

pub const SCL: u8 = 15;

pub const FREQ_HZ: u32 = 100_000;

} // verus!

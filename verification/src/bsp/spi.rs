//! SPI bus: the MAX31865 Pt100 frontend.

use vstd::prelude::*;

verus! {

pub const SCK: u8 = 14;

pub const MISO: u8 = 12;

pub const MOSI: u8 = 13;

/// Chip select of the MAX31865. GPIO 15 is taken by the I2C clock.
pub const CS_MAX31865: u8 = 2;

pub const FREQ_HZ: u32 = 1_000_000;

} // verus!

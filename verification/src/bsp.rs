//! Board support: pin map, addresses and limits of the KC868-A6.

pub mod i2c;
pub mod i2c_addr;
pub mod input;
pub mod max31865;
pub mod mqtt_topic;
pub mod relay;
pub mod spi;

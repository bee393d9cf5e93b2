//! Control library for the KC868-A6 relay board.
//!
//! The tasks of the firmware are state machines here. Each says what is to be
//! done next (`action` or `step`) and takes in what came of it (`advance` or an
//! `on_` function); the caller does the waiting, the bus transfers and the
//! network traffic in between. What the tasks know of each other stands in
//! [`shared::Shared`].

pub mod bsp;
pub mod button;
pub mod crc;
pub mod crc_table;
pub mod display;
pub mod format;
pub mod ha_discovery;
pub mod http;
pub mod hw_watchdog;
pub mod i2c_scan;
pub mod inputs;
pub mod interlock;
pub mod max31865;
pub mod mqtt;
pub mod ota;
pub mod ota_upload;
pub mod pcf8574;
pub mod publisher;
pub mod relays;
pub mod safety;
pub mod selftest;
pub mod shared;
pub mod subscriber;
pub mod temperature;
pub mod text;
pub mod watchdog;
pub mod webserver;
pub mod wifi;

//! Self-test suites that run on the board: each checks known values and names
//! the first one that is off.

pub mod mqtt_parsing_tests;
pub mod pcf8574_tests;
pub mod relay_tests;

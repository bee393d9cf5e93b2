//! MQTT topic layout.

use vstd::prelude::*;

verus! {

pub const BASE: &'static str = "kc868";

pub const TEMPERATURE: &'static str = "kc868/temperature";

/// Relay commands: `kc868/relay/<0..5>/set`.
pub const RELAY_CMD_SUB: &'static str = "kc868/relay/+/set";

pub const RELAY_STATE_PREFIX: &'static str = "kc868/relay";

pub const STATUS: &'static str = "kc868/status";

pub const SAFETY_STATE: &'static str = "kc868/safety/state";

pub const SAFETY_RESET: &'static str = "kc868/safety/reset";

pub const HA_DISCOVERY_PREFIX: &'static str = "homeassistant";

pub const DEVICE_ID: &'static str = "kc868_a6";

} // verus!

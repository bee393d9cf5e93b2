use kc868_a6::bsp::relay::IDLE_PORT_VALUE;
use kc868_a6::mqtt::parse_relay_cmd;
use kc868_a6::pcf8574::set_bit;
use kc868_a6::relays::{apply_set, apply_set_mask};
use kc868_a6::selftest::{mqtt_parsing_tests, pcf8574_tests, relay_tests};

#[test]
fn suites_pass() {
    assert_eq!(pcf8574_tests::run_all(), Ok(()));
    assert_eq!(relay_tests::run_all(), Ok(()));
    assert_eq!(mqtt_parsing_tests::run_all(), Ok(()));
}

#[test]
fn set_bit_high() {
    assert_eq!(set_bit(0x00, 0, true), 0x01);
    assert_eq!(set_bit(0x00, 7, true), 0x80);
    assert_eq!(set_bit(0xF0, 3, true), 0xF8);
}

#[test]
fn set_bit_low() {
    assert_eq!(set_bit(0xFF, 0, false), 0xFE);
    assert_eq!(set_bit(0xFF, 7, false), 0x7F);
    assert_eq!(set_bit(0x0F, 3, false), 0x07);
}

#[test]
fn set_bit_idempotent() {
    assert_eq!(set_bit(0x01, 0, true), 0x01);
    assert_eq!(set_bit(0xFE, 0, false), 0xFE);
}

#[test]
fn apply_set_single_relays() {
    assert_eq!(IDLE_PORT_VALUE, 0xFF);
    assert_eq!(apply_set(IDLE_PORT_VALUE, 0, true), Some((0xFE, 0x01)));
    assert_eq!(apply_set(0xFE, 0, false), Some((0xFF, 0x00)));
    assert_eq!(apply_set(IDLE_PORT_VALUE, 5, true), Some((0xDF, 0x20)));
}

#[test]
fn apply_set_rejects_invalid_index() {
    assert!(apply_set(IDLE_PORT_VALUE, 6, true).is_none());
    assert!(apply_set(IDLE_PORT_VALUE, 255, false).is_none());
}

#[test]
fn apply_set_several_relays() {
    let (port, _) = apply_set(IDLE_PORT_VALUE, 0, true).unwrap();
    let (port, _) = apply_set(port, 3, true).unwrap();
    assert_eq!(port, 0xF6);
    assert_eq!(!port & 0x3F, 0x09);
}

#[test]
fn apply_set_mask_values() {
    assert_eq!(apply_set_mask(0x0F), 0xF0);
    assert_eq!(apply_set_mask(0x00), 0xFF);
    assert_eq!(apply_set_mask(0xFF), apply_set_mask(0x3F));
    assert_eq!(apply_set_mask(0xFF), 0xC0);
}

#[test]
fn relay_cmd_valid() {
    assert_eq!(parse_relay_cmd("kc868/relay/3/set", b"1"), Some((3, true)));
    assert_eq!(parse_relay_cmd("kc868/relay/0/set", b"0"), Some((0, false)));
    for payload in [b"on" as &[u8], b"ON", b"true"] {
        assert_eq!(parse_relay_cmd("kc868/relay/1/set", payload), Some((1, true)));
    }
}

#[test]
fn relay_cmd_unknown_payload_is_off() {
    assert_eq!(parse_relay_cmd("kc868/relay/2/set", b"garbage"), Some((2, false)));
    assert_eq!(parse_relay_cmd("kc868/relay/0/set", b""), Some((0, false)));
}

#[test]
fn relay_cmd_wrong_prefix() {
    assert!(parse_relay_cmd("kc868/status", b"1").is_none());
    assert!(parse_relay_cmd("kc868/temperature", b"25").is_none());
    assert!(parse_relay_cmd("other/relay/0/set", b"1").is_none());
}

#[test]
fn relay_cmd_missing_set() {
    assert!(parse_relay_cmd("kc868/relay/0", b"1").is_none());
    assert!(parse_relay_cmd("kc868/relay/0/state", b"1").is_none());
}

#[test]
fn relay_cmd_non_numeric_index() {
    assert!(parse_relay_cmd("kc868/relay/abc/set", b"1").is_none());
    assert!(parse_relay_cmd("kc868/relay//set", b"1").is_none());
    assert!(parse_relay_cmd("kc868/relay/256/set", b"1").is_none());
    assert!(parse_relay_cmd("kc868/relay/-1/set", b"1").is_none());
}

#[test]
fn relay_cmd_extra_levels() {
    assert!(parse_relay_cmd("kc868/relay/0/set/extra", b"1").is_none());
}

#[test]
fn relay_cmd_boundary_indices() {
    assert_eq!(parse_relay_cmd("kc868/relay/0/set", b"1"), Some((0, true)));
    assert_eq!(parse_relay_cmd("kc868/relay/5/set", b"1"), Some((5, true)));
    assert_eq!(parse_relay_cmd("kc868/relay/99/set", b"1"), Some((99, true)));
    assert_eq!(parse_relay_cmd("kc868/relay/255/set", b"1"), Some((255, true)));
    assert_eq!(parse_relay_cmd("kc868/relay/+4/set", b"1"), Some((4, true)));
    assert_eq!(parse_relay_cmd("kc868/relay///4/set", b"1"), Some((4, true)));
}

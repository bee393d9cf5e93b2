//! Home Assistant discovery: the retained configs by which Home Assistant
//! creates its entities: a switch per relay, a binary sensor for the safety
//! interlock and a sensor for the temperature.
//!
//! All of them name the status topic for their availability, which carries
//! `online` during a session, and `offline` by the will of the session after
//! it.

use vstd::prelude::*;
use vstd::utf8::{encode_utf8, is_ascii_chars_encode_utf8};

use crate::bsp::mqtt_topic::{
    BASE, DEVICE_ID, HA_DISCOVERY_PREFIX, SAFETY_STATE, STATUS, TEMPERATURE,
};
use crate::bsp::relay::COUNT;
use crate::format::{
    byte_len, decimal, decimal_text, joined, law_decimal_tells_apart, lemma_decimal_ascii,
    lemma_decimal_len, lemma_joined_concat, lemma_joined_len, lemma_joined_step, texts, total_len,
    write_pieces,
};
use crate::mqtt::{command_topic, relay_state_topic, Message};

verus! {

/// The device to which all entities belong.
pub const DEVICE_BLOCK: &'static str = "{\"identifiers\":[\"kc868_a6\"],\"manufacturer\":\"KinCony\",\"model\":\"KC868-A6\",\"name\":\"KC868-A6 Controller\",\"sw_version\":\"0.1.0\"}";

/// What every config says of its availability, behind the base of the topics.
pub const AVAILABILITY: &'static str = "/status\",\"payload_available\":\"online\",\"payload_not_available\":\"offline\",\"device\":";

/// How many configs there are.
pub const CONFIG_COUNT: u8 = 8;

proof fn lemma_degree_sign()
    ensures
        byte_len("\u{00B0}"@) == 2,
{
    reveal_strlit("\u{00B0}");
    let sign = "\u{00B0}"@;
    assert(sign.drop_first() =~= Seq::<char>::empty());
    assert(encode_utf8(sign.drop_first()).len() == 0);
    reveal_with_fuel(encode_utf8, 2);
}

/// Lengths of the texts that several configs share.
proof fn lemma_shared_lengths()
    ensures
        byte_len(HA_DISCOVERY_PREFIX@) == 13,
        byte_len(DEVICE_ID@) == 8,
        byte_len(BASE@) == 5,
        byte_len(AVAILABILITY@) == 81,
        byte_len(DEVICE_BLOCK@) == 122,
        byte_len("}"@) == 1,
{
    reveal_strlit("homeassistant");
    reveal_strlit("kc868_a6");
    reveal_strlit("kc868");
    reveal_strlit("/status\",\"payload_available\":\"online\",\"payload_not_available\":\"offline\",\"device\":");
    reveal_strlit("{\"identifiers\":[\"kc868_a6\"],\"manufacturer\":\"KinCony\",\"model\":\"KC868-A6\",\"name\":\"KC868-A6 Controller\",\"sw_version\":\"0.1.0\"}");
    reveal_strlit("}");
    is_ascii_chars_encode_utf8(HA_DISCOVERY_PREFIX@);
    is_ascii_chars_encode_utf8(DEVICE_ID@);
    is_ascii_chars_encode_utf8(BASE@);
    is_ascii_chars_encode_utf8(AVAILABILITY@);
    is_ascii_chars_encode_utf8(DEVICE_BLOCK@);
    is_ascii_chars_encode_utf8("}"@);
}

/// Lengths of the texts that only the config of the switches has.
proof fn lemma_switch_lengths()
    ensures
        byte_len("/switch/"@) == 8,
        byte_len("/relay_"@) == 7,
        byte_len("/config"@) == 7,
        byte_len("{\"name\":\"Relay "@) == 15,
        byte_len("\",\"unique_id\":\""@) == 15,
        byte_len("_relay_"@) == 7,
        byte_len("\",\"command_topic\":\""@) == 19,
        byte_len("/relay/"@) == 7,
        byte_len("/set\",\"state_topic\":\""@) == 21,
        byte_len("/state\",\"payload_on\":\"ON\",\"payload_off\":\"OFF\",\"state_on\":\"ON\",\"state_off\":\"OFF\",\"availability_topic\":\""@) == 102,
{
    reveal_strlit("/switch/");
    reveal_strlit("/relay_");
    reveal_strlit("/config");
    reveal_strlit("{\"name\":\"Relay ");
    reveal_strlit("\",\"unique_id\":\"");
    reveal_strlit("_relay_");
    reveal_strlit("\",\"command_topic\":\"");
    reveal_strlit("/relay/");
    reveal_strlit("/set\",\"state_topic\":\"");
    reveal_strlit("/state\",\"payload_on\":\"ON\",\"payload_off\":\"OFF\",\"state_on\":\"ON\",\"state_off\":\"OFF\",\"availability_topic\":\"");
    is_ascii_chars_encode_utf8("/switch/"@);
    is_ascii_chars_encode_utf8("/relay_"@);
    is_ascii_chars_encode_utf8("/config"@);
    is_ascii_chars_encode_utf8("{\"name\":\"Relay "@);
    is_ascii_chars_encode_utf8("\",\"unique_id\":\""@);
    is_ascii_chars_encode_utf8("_relay_"@);
    is_ascii_chars_encode_utf8("\",\"command_topic\":\""@);
    is_ascii_chars_encode_utf8("/relay/"@);
    is_ascii_chars_encode_utf8("/set\",\"state_topic\":\""@);
    is_ascii_chars_encode_utf8("/state\",\"payload_on\":\"ON\",\"payload_off\":\"OFF\",\"state_on\":\"ON\",\"state_off\":\"OFF\",\"availability_topic\":\""@);
}

/// Lengths of the texts that only the config of the interlock has.
proof fn lemma_safety_lengths()
    ensures
        byte_len("/binary_sensor/"@) == 15,
        byte_len("/safety/config"@) == 14,
        byte_len("{\"name\":\"Safety Interlock\",\"unique_id\":\""@) == 40,
        byte_len("_safety\",\"state_topic\":\""@) == 24,
        byte_len("/safety/state\",\"payload_on\":\"locked\",\"payload_off\":\"ok\",\"device_class\":\"safety\",\"availability_topic\":\""@) == 102,
{
    reveal_strlit("/binary_sensor/");
    reveal_strlit("/safety/config");
    reveal_strlit("{\"name\":\"Safety Interlock\",\"unique_id\":\"");
    reveal_strlit("_safety\",\"state_topic\":\"");
    reveal_strlit("/safety/state\",\"payload_on\":\"locked\",\"payload_off\":\"ok\",\"device_class\":\"safety\",\"availability_topic\":\"");
    is_ascii_chars_encode_utf8("/binary_sensor/"@);
    is_ascii_chars_encode_utf8("/safety/config"@);
    is_ascii_chars_encode_utf8("{\"name\":\"Safety Interlock\",\"unique_id\":\""@);
    is_ascii_chars_encode_utf8("_safety\",\"state_topic\":\""@);
    is_ascii_chars_encode_utf8("/safety/state\",\"payload_on\":\"locked\",\"payload_off\":\"ok\",\"device_class\":\"safety\",\"availability_topic\":\""@);
}

/// Lengths of the texts that only the config of the temperature has.
proof fn lemma_temperature_lengths()
    ensures
        byte_len("/sensor/"@) == 8,
        byte_len("/temperature/config"@) == 19,
        byte_len("{\"name\":\"Temperature\",\"unique_id\":\""@) == 35,
        byte_len("_temp\",\"state_topic\":\""@) == 22,
        byte_len(TEMPERATURE@) == 17,
        byte_len("\",\"unit_of_measurement\":\""@) == 25,
        byte_len("C\",\"device_class\":\"temperature\",\"state_class\":\"measurement\",\"suggested_display_precision\":1,\"availability_topic\":\""@) == 114,
{
    reveal_strlit("/sensor/");
    reveal_strlit("/temperature/config");
    reveal_strlit("{\"name\":\"Temperature\",\"unique_id\":\"");
    reveal_strlit("_temp\",\"state_topic\":\"");
    reveal_strlit("kc868/temperature");
    reveal_strlit("\",\"unit_of_measurement\":\"");
    reveal_strlit("C\",\"device_class\":\"temperature\",\"state_class\":\"measurement\",\"suggested_display_precision\":1,\"availability_topic\":\"");
    is_ascii_chars_encode_utf8("/sensor/"@);
    is_ascii_chars_encode_utf8("/temperature/config"@);
    is_ascii_chars_encode_utf8("{\"name\":\"Temperature\",\"unique_id\":\""@);
    is_ascii_chars_encode_utf8("_temp\",\"state_topic\":\""@);
    is_ascii_chars_encode_utf8(TEMPERATURE@);
    is_ascii_chars_encode_utf8("\",\"unit_of_measurement\":\""@);
    is_ascii_chars_encode_utf8("C\",\"device_class\":\"temperature\",\"state_class\":\"measurement\",\"suggested_display_precision\":1,\"availability_topic\":\""@);
}

/// The pieces of the topic of the config of the switch of one relay.
pub open spec fn switch_topic_pieces(index: nat) -> Seq<Seq<char>> {
    seq![
        HA_DISCOVERY_PREFIX@,
        "/switch/"@,
        DEVICE_ID@,
        "/relay_"@,
        decimal_text(index),
        "/config"@,
    ]
}

/// Topic of the config of the switch of one relay.
pub open spec fn switch_topic(index: nat) -> Seq<char> {
    joined(switch_topic_pieces(index))
}

/// The pieces of the config of the switch of one relay.
pub open spec fn switch_pieces(index: nat) -> Seq<Seq<char>> {
    seq![
        "{\"name\":\"Relay "@,
        decimal_text(index + 1),
        "\",\"unique_id\":\""@,
        DEVICE_ID@,
        "_relay_"@,
        decimal_text(index),
        "\",\"command_topic\":\""@,
        BASE@,
        "/relay/"@,
        decimal_text(index),
        "/set\",\"state_topic\":\""@,
        BASE@,
        "/relay/"@,
        decimal_text(index),
        "/state\",\"payload_on\":\"ON\",\"payload_off\":\"OFF\",\"state_on\":\"ON\",\"state_off\":\"OFF\",\"availability_topic\":\""@,
        BASE@,
        AVAILABILITY@,
        DEVICE_BLOCK@,
        "}"@,
    ]
}

/// The config of the switch of one relay.
pub open spec fn switch_config(index: nat) -> Seq<char> {
    joined(switch_pieces(index))
}

/// Topic and config of a switch fit their buffers.
#[verifier::spinoff_prover]
#[verifier::rlimit(40)]
proof fn lemma_switch_fits(index: nat)
    requires
        index < COUNT,
    ensures
        byte_len(switch_topic(index)) <= 96,
        byte_len(switch_config(index)) <= 768,
{
    lemma_shared_lengths();
    lemma_switch_lengths();
    lemma_decimal_ascii(index);
    lemma_decimal_len(index);
    lemma_decimal_ascii(index + 1);
    lemma_decimal_len(index + 1);
    let pieces = switch_pieces(index);
    lemma_joined_len(pieces);
    let topic = switch_topic_pieces(index);
    lemma_joined_len(topic);
    reveal_with_fuel(total_len, 20);
}

/// The message that announces the switch of one relay.
pub fn publish_switch(index: u8) -> (message: Message)
    requires
        index < COUNT,
    ensures
        message.topic@ == switch_topic(index as nat),
        message.payload@ == switch_config(index as nat),
        !message.confirmed,
        message.retained,
{
    let own: String = decimal(index as u32);
    let shown: String = decimal(index as u32 + 1);
    let parts: [&str; 6] = [
        HA_DISCOVERY_PREFIX,
        "/switch/",
        DEVICE_ID,
        "/relay_",
        own.as_str(),
        "/config",
    ];
    proof {
        lemma_switch_fits(index as nat);
        assert(texts(parts@) =~= switch_topic_pieces(index as nat));
    }
    let topic: String = write_pieces::<96>(parts.as_slice()).text;
    let parts: [&str; 19] = [
        "{\"name\":\"Relay ",
        shown.as_str(),
        "\",\"unique_id\":\"",
        DEVICE_ID,
        "_relay_",
        own.as_str(),
        "\",\"command_topic\":\"",
        BASE,
        "/relay/",
        own.as_str(),
        "/set\",\"state_topic\":\"",
        BASE,
        "/relay/",
        own.as_str(),
        "/state\",\"payload_on\":\"ON\",\"payload_off\":\"OFF\",\"state_on\":\"ON\",\"state_off\":\"OFF\",\"availability_topic\":\"",
        BASE,
        AVAILABILITY,
        DEVICE_BLOCK,
        "}",
    ];
    assert(texts(parts@) =~= switch_pieces(index as nat));
    let payload: String = write_pieces::<768>(parts.as_slice()).text;
    Message { topic, payload, confirmed: false, retained: true }
}

/// The pieces of the topic of the config of the safety interlock.
pub open spec fn safety_topic_pieces() -> Seq<Seq<char>> {
    seq![
        HA_DISCOVERY_PREFIX@,
        "/binary_sensor/"@,
        DEVICE_ID@,
        "/safety/config"@,
    ]
}

/// Topic of the config of the safety interlock.
pub open spec fn safety_topic() -> Seq<char> {
    joined(safety_topic_pieces())
}

/// The pieces of the config of the safety interlock.
pub open spec fn safety_pieces() -> Seq<Seq<char>> {
    seq![
        "{\"name\":\"Safety Interlock\",\"unique_id\":\""@,
        DEVICE_ID@,
        "_safety\",\"state_topic\":\""@,
        BASE@,
        "/safety/state\",\"payload_on\":\"locked\",\"payload_off\":\"ok\",\"device_class\":\"safety\",\"availability_topic\":\""@,
        BASE@,
        AVAILABILITY@,
        DEVICE_BLOCK@,
        "}"@,
    ]
}

/// The config of the safety interlock.
pub open spec fn safety_config() -> Seq<char> {
    joined(safety_pieces())
}

/// Topic and config of the interlock fit their buffers.
#[verifier::spinoff_prover]
#[verifier::rlimit(40)]
proof fn lemma_safety_fits()
    ensures
        byte_len(safety_topic()) <= 96,
        byte_len(safety_config()) <= 768,
{
    lemma_shared_lengths();
    lemma_safety_lengths();
    let pieces = safety_pieces();
    lemma_joined_len(pieces);
    let topic = safety_topic_pieces();
    lemma_joined_len(topic);
    reveal_with_fuel(total_len, 10);
}

/// The message that announces the safety interlock.
pub fn publish_safety_binary_sensor() -> (message: Message)
    ensures
        message.topic@ == safety_topic(),
        message.payload@ == safety_config(),
        !message.confirmed,
        message.retained,
{
    let parts: [&str; 4] = [
        HA_DISCOVERY_PREFIX,
        "/binary_sensor/",
        DEVICE_ID,
        "/safety/config",
    ];
    proof {
        lemma_safety_fits();
        assert(texts(parts@) =~= safety_topic_pieces());
    }
    let topic: String = write_pieces::<96>(parts.as_slice()).text;
    let parts: [&str; 9] = [
        "{\"name\":\"Safety Interlock\",\"unique_id\":\"",
        DEVICE_ID,
        "_safety\",\"state_topic\":\"",
        BASE,
        "/safety/state\",\"payload_on\":\"locked\",\"payload_off\":\"ok\",\"device_class\":\"safety\",\"availability_topic\":\"",
        BASE,
        AVAILABILITY,
        DEVICE_BLOCK,
        "}",
    ];
    assert(texts(parts@) =~= safety_pieces());
    let payload: String = write_pieces::<768>(parts.as_slice()).text;
    Message { topic, payload, confirmed: false, retained: true }
}

/// The pieces of the topic of the config of the temperature.
pub open spec fn temperature_topic_pieces() -> Seq<Seq<char>> {
    seq![
        HA_DISCOVERY_PREFIX@,
        "/sensor/"@,
        DEVICE_ID@,
        "/temperature/config"@,
    ]
}

/// Topic of the config of the temperature.
pub open spec fn temperature_topic() -> Seq<char> {
    joined(temperature_topic_pieces())
}

/// The pieces of the config of the temperature.
pub open spec fn temperature_pieces() -> Seq<Seq<char>> {
    seq![
        "{\"name\":\"Temperature\",\"unique_id\":\""@,
        DEVICE_ID@,
        "_temp\",\"state_topic\":\""@,
        TEMPERATURE@,
        "\",\"unit_of_measurement\":\""@,
        "\u{00B0}"@,
        "C\",\"device_class\":\"temperature\",\"state_class\":\"measurement\",\"suggested_display_precision\":1,\"availability_topic\":\""@,
        BASE@,
        AVAILABILITY@,
        DEVICE_BLOCK@,
        "}"@,
    ]
}

/// The config of the temperature.
pub open spec fn temperature_config() -> Seq<char> {
    joined(temperature_pieces())
}

/// Topic and config of the temperature fit their buffers.
#[verifier::spinoff_prover]
#[verifier::rlimit(40)]
proof fn lemma_temperature_fits()
    ensures
        byte_len(temperature_topic()) <= 96,
        byte_len(temperature_config()) <= 768,
{
    lemma_shared_lengths();
    lemma_temperature_lengths();
    lemma_degree_sign();
    let pieces = temperature_pieces();
    lemma_joined_len(pieces);
    let topic = temperature_topic_pieces();
    lemma_joined_len(topic);
    reveal_with_fuel(total_len, 12);
}

/// The message that announces the temperature.
pub fn publish_temperature_sensor() -> (message: Message)
    ensures
        message.topic@ == temperature_topic(),
        message.payload@ == temperature_config(),
        !message.confirmed,
        message.retained,
{
    let parts: [&str; 4] = [
        HA_DISCOVERY_PREFIX,
        "/sensor/",
        DEVICE_ID,
        "/temperature/config",
    ];
    proof {
        lemma_temperature_fits();
        assert(texts(parts@) =~= temperature_topic_pieces());
    }
    let topic: String = write_pieces::<96>(parts.as_slice()).text;
    let parts: [&str; 11] = [
        "{\"name\":\"Temperature\",\"unique_id\":\"",
        DEVICE_ID,
        "_temp\",\"state_topic\":\"",
        TEMPERATURE,
        "\",\"unit_of_measurement\":\"",
        "\u{00B0}",
        "C\",\"device_class\":\"temperature\",\"state_class\":\"measurement\",\"suggested_display_precision\":1,\"availability_topic\":\"",
        BASE,
        AVAILABILITY,
        DEVICE_BLOCK,
        "}",
    ];
    assert(texts(parts@) =~= temperature_pieces());
    let payload: String = write_pieces::<768>(parts.as_slice()).text;
    Message { topic, payload, confirmed: false, retained: true }
}

/// The `n`-th config: the switches in turn, then the safety interlock, then the
/// temperature.
pub open spec fn is_config(n: int, message: Message) -> bool {
    &&& !message.confirmed
    &&& message.retained
    &&& if n < COUNT {
        message.topic@ == switch_topic(n as nat) && message.payload@ == switch_config(n as nat)
    } else if n == COUNT {
        message.topic@ == safety_topic() && message.payload@ == safety_config()
    } else {
        message.topic@ == temperature_topic() && message.payload@ == temperature_config()
    }
}

/// The `n`-th of the configs that are published in a session.
pub fn publish_all(n: u8) -> (message: Message)
    requires
        n < CONFIG_COUNT,
    ensures
        is_config(n as int, message),
{
    if (n as usize) < COUNT {
        publish_switch(n)
    } else if n as usize == COUNT {
        publish_safety_binary_sensor()
    } else {
        publish_temperature_sensor()
    }
}

/// `part` stands somewhere in `text`.
pub open spec fn names(text: Seq<char>, part: Seq<char>) -> bool {
    exists|at: int|
        0 <= at && at + part.len() <= text.len() && #[trigger] text.subrange(at, at + part.len())
            == part
}

proof fn lemma_names(pieces: Seq<Seq<char>>, from: int, to: int, part: Seq<char>)
    requires
        0 <= from <= to <= pieces.len(),
        ({
            let rest = joined(pieces.subrange(from, to));
            part.len() <= rest.len() && rest.take(part.len() as int) == part
        }),
    ensures
        names(joined(pieces), part),
{
    let front = pieces.take(from);
    let middle = pieces.subrange(from, to);
    let back = pieces.skip(to);
    assert(pieces =~= front + (middle + back));
    lemma_joined_concat(front, middle + back);
    lemma_joined_concat(middle, back);
    let rest = joined(middle);
    let at = joined(front).len() as int;
    assert(joined(pieces).subrange(at, at + part.len()) =~= rest.take(part.len() as int));
}

proof fn lemma_names_status(pieces: Seq<Seq<char>>, at: int)
    requires
        0 <= at,
        at + 2 <= pieces.len(),
        pieces[at] == BASE@,
        pieces[at + 1] == AVAILABILITY@,
    ensures
        names(joined(pieces), STATUS@),
{
    reveal_strlit("kc868");
    reveal_strlit("kc868/status");
    reveal_strlit("/status\",\"payload_available\":\"online\",\"payload_not_available\":\"offline\",\"device\":");
    reveal_with_fuel(joined, 3);
    let part = pieces.subrange(at, at + 2);
    assert(part.drop_last().drop_last() =~= Seq::empty());
    assert(joined(part) =~= BASE@ + AVAILABILITY@);
    assert(joined(part).take(12) =~= STATUS@);
    lemma_names(pieces, at, at + 2, STATUS@);
}

/// Every config names the topic that tells whether the board is there.
pub proof fn law_configs_name_the_status_topic(index: nat)
    ensures
        names(switch_config(index), STATUS@),
        names(safety_config(), STATUS@),
        names(temperature_config(), STATUS@),
{
    lemma_names_status(switch_pieces(index), 15);
    lemma_names_status(safety_pieces(), 5);
    lemma_names_status(temperature_pieces(), 7);
}

/// The config of the interlock names the topic on which its state is published,
/// and that of the sensor the topic of the temperature.
pub proof fn law_sensors_name_their_topics()
    ensures
        names(safety_config(), SAFETY_STATE@),
        names(temperature_config(), TEMPERATURE@),
{
    reveal_strlit("kc868");
    reveal_strlit("kc868/safety/state");
    reveal_strlit("/safety/state\",\"payload_on\":\"locked\",\"payload_off\":\"ok\",\"device_class\":\"safety\",\"availability_topic\":\"");
    reveal_with_fuel(joined, 3);
    let pieces = safety_pieces();
    let part = pieces.subrange(3, 5);
    assert(part.drop_last().drop_last() =~= Seq::empty());
    assert(joined(part) =~= BASE@ + "/safety/state\",\"payload_on\":\"locked\",\"payload_off\":\"ok\",\"device_class\":\"safety\",\"availability_topic\":\""@);
    assert(joined(part).take(18) =~= SAFETY_STATE@);
    lemma_names(pieces, 3, 5, SAFETY_STATE@);
    let pieces = temperature_pieces();
    let part = pieces.subrange(3, 4);
    assert(part.drop_last() =~= Seq::empty());
    assert(joined(part) =~= TEMPERATURE@);
    assert(joined(part).take(TEMPERATURE@.len() as int) =~= TEMPERATURE@);
    lemma_names(pieces, 3, 4, TEMPERATURE@);
}

/// The config of a switch names the topic on which its relay is commanded, and
/// the one on which the state of that relay is published.
pub proof fn law_switch_names_its_topics(index: nat)
    ensures
        names(switch_config(index), command_topic(index)),
        names(switch_config(index), relay_state_topic(index)),
{
    reveal_strlit("kc868");
    reveal_strlit("kc868/relay");
    reveal_strlit("/");
    reveal_strlit("/relay/");
    reveal_strlit("/set");
    reveal_strlit("/state");
    reveal_strlit("/set\",\"state_topic\":\"");
    reveal_strlit(
        "/state\",\"payload_on\":\"ON\",\"payload_off\":\"OFF\",\"state_on\":\"ON\",\"state_off\":\"OFF\",\"availability_topic\":\"",
    );
    reveal_with_fuel(joined, 5);
    let pieces = switch_pieces(index);
    let digits = decimal_text(index);
    let command = pieces[7] + pieces[8] + pieces[9] + pieces[10];
    assert(command_topic(index) =~= "kc868"@ + "/relay/"@ + digits + "/set"@);
    assert(command.take(command_topic(index).len() as int) =~= command_topic(index));
    assert(pieces.subrange(7, 11) =~= seq![pieces[7], pieces[8], pieces[9], pieces[10]]);
    assert(joined(pieces.subrange(7, 11)) =~= command);
    lemma_names(pieces, 7, 11, command_topic(index));
    let state = pieces[11] + pieces[12] + pieces[13] + pieces[14];
    assert(relay_state_topic(index) =~= "kc868/relay"@ + "/"@ + digits + "/state"@);
    assert(state.take(relay_state_topic(index).len() as int) =~= relay_state_topic(index));
    assert(pieces.subrange(11, 15) =~= seq![pieces[11], pieces[12], pieces[13], pieces[14]]);
    assert(joined(pieces.subrange(11, 15)) =~= state);
    lemma_names(pieces, 11, 15, relay_state_topic(index));
}

/// The config topic of relay `i` is
/// `homeassistant/switch/kc868_a6/relay_<i>/config`.
pub proof fn law_switch_topic_text(index: nat)
    ensures
        switch_topic(index) == "homeassistant/switch/kc868_a6/relay_"@ + decimal_text(index)
            + "/config"@,
{
    reveal_strlit("homeassistant");
    reveal_strlit("/switch/");
    reveal_strlit("kc868_a6");
    reveal_strlit("/relay_");
    reveal_strlit("homeassistant/switch/kc868_a6/relay_");
    let pieces = switch_topic_pieces(index);
    lemma_joined_step(pieces, 0);
    lemma_joined_step(pieces, 1);
    lemma_joined_step(pieces, 2);
    lemma_joined_step(pieces, 3);
    lemma_joined_step(pieces, 4);
    lemma_joined_step(pieces, 5);
    assert(joined(pieces.take(4)) =~= "homeassistant/switch/kc868_a6/relay_"@);
}

/// The switches of different relays have different config topics.
pub proof fn law_switch_topics_differ(i: nat, j: nat)
    requires
        i != j,
    ensures
        switch_topic(i) != switch_topic(j),
{
    law_switch_topic_text(i);
    law_switch_topic_text(j);
    law_decimal_tells_apart(i, j);
    let front = "homeassistant/switch/kc868_a6/relay_"@;
    let a = decimal_text(i);
    let b = decimal_text(j);
    let back = "/config"@;
    assert(switch_topic(i).len() == front.len() + a.len() + back.len());
    assert(switch_topic(j).len() == front.len() + b.len() + back.len());
    if switch_topic(i) == switch_topic(j) {
        assert(switch_topic(i).subrange(front.len() as int, (front.len() + a.len()) as int) =~= a);
        assert(switch_topic(j).subrange(front.len() as int, (front.len() + b.len()) as int) =~= b);
    }
}

/// The config topics of the interlock and of the temperature are
/// `homeassistant/binary_sensor/kc868_a6/safety/config` and
/// `homeassistant/sensor/kc868_a6/temperature/config`.
pub proof fn law_sensor_topic_texts()
    ensures
        safety_topic() == "homeassistant/binary_sensor/kc868_a6/safety/config"@,
        temperature_topic() == "homeassistant/sensor/kc868_a6/temperature/config"@,
{
    reveal_strlit("homeassistant");
    reveal_strlit("kc868_a6");
    reveal_strlit("/binary_sensor/");
    reveal_strlit("/safety/config");
    reveal_strlit("/sensor/");
    reveal_strlit("/temperature/config");
    reveal_strlit("homeassistant/binary_sensor/kc868_a6/safety/config");
    reveal_strlit("homeassistant/sensor/kc868_a6/temperature/config");
    let pieces = safety_topic_pieces();
    lemma_joined_step(pieces, 0);
    lemma_joined_step(pieces, 1);
    lemma_joined_step(pieces, 2);
    lemma_joined_step(pieces, 3);
    assert(safety_topic() =~= "homeassistant/binary_sensor/kc868_a6/safety/config"@);
    let pieces = temperature_topic_pieces();
    lemma_joined_step(pieces, 0);
    lemma_joined_step(pieces, 1);
    lemma_joined_step(pieces, 2);
    lemma_joined_step(pieces, 3);
    assert(temperature_topic() =~= "homeassistant/sensor/kc868_a6/temperature/config"@);
}

/// No two of the configs of a session share a topic: none replaces another.
pub proof fn law_config_topics_differ(n: int, m: int, one: Message, other: Message)
    requires
        0 <= n < 8,
        0 <= m < 8,
        n != m,
        is_config(n, one),
        is_config(m, other),
    ensures
        one.topic@ != other.topic@,
        one.retained && other.retained,
{
    reveal_strlit("homeassistant/switch/kc868_a6/relay_");
    reveal_strlit("homeassistant/binary_sensor/kc868_a6/safety/config");
    reveal_strlit("homeassistant/sensor/kc868_a6/temperature/config");
    law_sensor_topic_texts();
    if n < 6 {
        law_switch_topic_text(n as nat);
        assert(one.topic@[15] == 'w');
    }
    if m < 6 {
        law_switch_topic_text(m as nat);
        assert(other.topic@[15] == 'w');
    }
    if n < 6 && m < 6 {
        law_switch_topics_differ(n as nat, m as nat);
    }
    assert(safety_topic()[15] == 'i');
    assert(temperature_topic()[15] == 'e');
}

/// The config of the switch of relay `i` shows it as `Relay <i + 1>`, under an
/// id of its own, and names the topics on which that relay is commanded and
/// tells its state.
#[verifier::spinoff_prover]
pub proof fn law_switch_config_text(index: nat)
    ensures
        switch_config(index) == "{\"name\":\"Relay "@ + decimal_text(index + 1)
            + "\",\"unique_id\":\""@ + "kc868_a6"@ + "_relay_"@ + decimal_text(index)
            + "\",\"command_topic\":\""@ + "kc868"@ + "/relay/"@ + decimal_text(index)
            + "/set\",\"state_topic\":\""@ + "kc868"@ + "/relay/"@ + decimal_text(index)
            + "/state\",\"payload_on\":\"ON\",\"payload_off\":\"OFF\",\"state_on\":\"ON\",\"state_off\":\"OFF\",\"availability_topic\":\""@
            + "kc868"@
            + "/status\",\"payload_available\":\"online\",\"payload_not_available\":\"offline\",\"device\":"@
            + "{\"identifiers\":[\"kc868_a6\"],\"manufacturer\":\"KinCony\",\"model\":\"KC868-A6\",\"name\":\"KC868-A6 Controller\",\"sw_version\":\"0.1.0\"}"@
            + "}"@,
{
    let pieces = switch_pieces(index);
    lemma_joined_step(pieces, 0);
    assert(joined(pieces.take(1)) =~= pieces[0]);
    lemma_joined_step(pieces, 1);
    lemma_joined_step(pieces, 2);
    lemma_joined_step(pieces, 3);
    lemma_joined_step(pieces, 4);
    lemma_joined_step(pieces, 5);
    lemma_joined_step(pieces, 6);
    lemma_joined_step(pieces, 7);
    lemma_joined_step(pieces, 8);
    lemma_joined_step(pieces, 9);
    lemma_joined_step(pieces, 10);
    lemma_joined_step(pieces, 11);
    lemma_joined_step(pieces, 12);
    lemma_joined_step(pieces, 13);
    lemma_joined_step(pieces, 14);
    lemma_joined_step(pieces, 15);
    lemma_joined_step(pieces, 16);
    lemma_joined_step(pieces, 17);
    lemma_joined_step(pieces, 18);
}

/// The `n`-th config of a session is that of relay `n`, for the six relays; the
/// last two are those of the interlock and of the temperature.
pub proof fn law_configs_come_in_turn(n: int, message: Message)
    requires
        0 <= n < 8,
        is_config(n, message),
    ensures
        n < 6 ==> message.topic@ == "homeassistant/switch/kc868_a6/relay_"@ + decimal_text(n as nat)
            + "/config"@ && message.payload@ == switch_config(n as nat),
        n == 6 ==> message.topic@ == "homeassistant/binary_sensor/kc868_a6/safety/config"@
            && message.payload@ == safety_config(),
        n == 7 ==> message.topic@ == "homeassistant/sensor/kc868_a6/temperature/config"@
            && message.payload@ == temperature_config(),
        message.retained,
        !message.confirmed,
{
    law_switch_topic_text(n as nat);
    law_sensor_topic_texts();
}

/// The configs of the interlock and of the temperature, piece by piece.
#[verifier::spinoff_prover]
pub proof fn law_sensor_config_texts()
    ensures
        safety_config() == "{\"name\":\"Safety Interlock\",\"unique_id\":\""@ + "kc868_a6"@
            + "_safety\",\"state_topic\":\""@ + "kc868"@
            + "/safety/state\",\"payload_on\":\"locked\",\"payload_off\":\"ok\",\"device_class\":\"safety\",\"availability_topic\":\""@
            + "kc868"@
            + "/status\",\"payload_available\":\"online\",\"payload_not_available\":\"offline\",\"device\":"@
            + "{\"identifiers\":[\"kc868_a6\"],\"manufacturer\":\"KinCony\",\"model\":\"KC868-A6\",\"name\":\"KC868-A6 Controller\",\"sw_version\":\"0.1.0\"}"@
            + "}"@,
        temperature_config() == "{\"name\":\"Temperature\",\"unique_id\":\""@ + "kc868_a6"@
            + "_temp\",\"state_topic\":\""@ + "kc868/temperature"@
            + "\",\"unit_of_measurement\":\""@ + "\u{00B0}"@
            + "C\",\"device_class\":\"temperature\",\"state_class\":\"measurement\",\"suggested_display_precision\":1,\"availability_topic\":\""@
            + "kc868"@
            + "/status\",\"payload_available\":\"online\",\"payload_not_available\":\"offline\",\"device\":"@
            + "{\"identifiers\":[\"kc868_a6\"],\"manufacturer\":\"KinCony\",\"model\":\"KC868-A6\",\"name\":\"KC868-A6 Controller\",\"sw_version\":\"0.1.0\"}"@
            + "}"@,
{
    let pieces = safety_pieces();
    lemma_joined_step(pieces, 0);
    assert(joined(pieces.take(1)) =~= pieces[0]);
    lemma_joined_step(pieces, 1);
    lemma_joined_step(pieces, 2);
    lemma_joined_step(pieces, 3);
    lemma_joined_step(pieces, 4);
    lemma_joined_step(pieces, 5);
    lemma_joined_step(pieces, 6);
    lemma_joined_step(pieces, 7);
    lemma_joined_step(pieces, 8);
    let pieces = temperature_pieces();
    lemma_joined_step(pieces, 0);
    assert(joined(pieces.take(1)) =~= pieces[0]);
    lemma_joined_step(pieces, 1);
    lemma_joined_step(pieces, 2);
    lemma_joined_step(pieces, 3);
    lemma_joined_step(pieces, 4);
    lemma_joined_step(pieces, 5);
    lemma_joined_step(pieces, 6);
    lemma_joined_step(pieces, 7);
    lemma_joined_step(pieces, 8);
    lemma_joined_step(pieces, 9);
    lemma_joined_step(pieces, 10);
}

} // verus!

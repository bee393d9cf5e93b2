//! MQTT front end: what an inbound message asks for, and the messages that
//! tell relay and safety state.

use vstd::prelude::*;
use vstd::string::{StringExecFns, StringSliceAdditionalSpecFns};
use vstd::utf8::{encode_utf8, is_ascii_chars_encode_utf8};

use crate::bsp::mqtt_topic::{
    BASE, RELAY_STATE_PREFIX, SAFETY_RESET, SAFETY_STATE, STATUS, TEMPERATURE,
};
use crate::bsp::relay::COUNT;
use crate::format::{
    decimal, decimal_text, joined, law_decimal_reads_back, law_decimal_tells_apart,
    lemma_decimal_ascii, lemma_decimal_len, lemma_decimal_reads, lemma_encode_concat,
    lemma_joined_len, lemma_joined_step, texts, total_len, write_pieces,
};
use crate::inputs::{after_reset, reset_granted, try_safety_reset};
use crate::pcf8574::is_high;
use crate::relays::RelayCommand;
use crate::shared::Shared;
use crate::text::{
    begins_with, bytes_eq, first_of, is_digit, law_leading_bytes_are_stripped, lemma_first_behind,
    lemma_first_of, parse_u8, parse_unsigned, split, split_first, strip_prefix, trim_start_byte,
    unsigned, without_leading,
};

verus! {

/// Delay before a session is set up again, in milliseconds.
pub const RECONNECT_DELAY_MS: u64 = 2_000;

/// Port of the broker where the configuration names none.
pub const DEFAULT_PORT: u16 = 1883;

/// Time after which a silent connection is dropped, in milliseconds.
pub const TCP_TIMEOUT_MS: u64 = 20_000;

/// Period of the keep-alive probes of a connection, in milliseconds.
pub const TCP_KEEPALIVE_MS: u64 = 15_000;

/// The slash that separates topic levels.
pub const SLASH: u8 = 0x2F;

/// What follows the relay prefix of a topic, without the slashes in between.
pub open spec fn relay_suffix(topic: Seq<u8>) -> Seq<u8> {
    without_leading(topic.skip(RELAY_STATE_PREFIX.spec_bytes().len() as int), SLASH)
}

/// A relay suffix of the form `<index>/set`.
pub open spec fn is_set_suffix(suffix: Seq<u8>) -> bool {
    let levels = split(suffix, SLASH);
    levels.len() == 2 && levels[1] == "set".spec_bytes()
}

/// A payload that switches a relay on.
pub open spec fn says_on(payload: Seq<u8>) -> bool {
    ||| payload == "1".spec_bytes()
    ||| payload == "on".spec_bytes()
    ||| payload == "ON".spec_bytes()
    ||| payload == "true".spec_bytes()
}

/// A payload that a relay command takes: on.
pub open spec fn commands_on(payload: Seq<u8>) -> bool {
    says_on(payload) || payload == "TRUE".spec_bytes()
}

/// A payload that a relay command takes: off.
pub open spec fn commands_off(payload: Seq<u8>) -> bool {
    ||| payload == "0".spec_bytes()
    ||| payload == "off".spec_bytes()
    ||| payload == "OFF".spec_bytes()
    ||| payload == "false".spec_bytes()
    ||| payload == "FALSE".spec_bytes()
}

fn is_on(payload: &[u8]) -> (on: bool)
    ensures
        on == says_on(payload@),
{
    bytes_eq(payload, "1".as_bytes()) || bytes_eq(payload, "on".as_bytes()) || bytes_eq(
        payload,
        "ON".as_bytes(),
    ) || bytes_eq(payload, "true".as_bytes())
}

proof fn lemma_split_nonempty(text: Seq<u8>, separator: u8)
    ensures
        split(text, separator).len() >= 1,
        first_of(text, separator) < text.len() ==> split(text, separator).len() >= 2,
    decreases text.len(),
{
    lemma_first_of(text, separator);
    let at = first_of(text, separator);
    if at < text.len() {
        lemma_split_nonempty(text.skip(at + 1), separator);
    }
}

proof fn lemma_set_has_one_level()
    ensures
        split("set".spec_bytes(), SLASH) == seq!["set".spec_bytes()],
{
    reveal_strlit("set");
    let set = "set".spec_bytes();
    is_ascii_chars_encode_utf8("set"@);
    lemma_first_of(set, SLASH);
    assert("set"@[0] as u8 == set[0]);
    assert("set"@[1] as u8 == set[1]);
    assert("set"@[2] as u8 == set[2]);
    assert(first_of(set, SLASH) == 3);
}

/// A suffix is `<index>/set` exactly if `set` follows its first slash.
pub proof fn lemma_set_suffix(suffix: Seq<u8>)
    ensures
        is_set_suffix(suffix) <==> {
            &&& first_of(suffix, SLASH) < suffix.len()
            &&& suffix.skip(first_of(suffix, SLASH) + 1) == "set".spec_bytes()
        },
        is_set_suffix(suffix) ==> split(suffix, SLASH)[0] == suffix.take(first_of(suffix, SLASH)),
{
    lemma_first_of(suffix, SLASH);
    lemma_set_has_one_level();
    let at = first_of(suffix, SLASH);
    if at < suffix.len() {
        let rest = suffix.skip(at + 1);
        lemma_split_nonempty(rest, SLASH);
        lemma_first_of(rest, SLASH);
        let levels = split(suffix, SLASH);
        assert(levels == seq![suffix.take(at)] + split(rest, SLASH));
        if levels.len() == 2 {
            assert(split(rest, SLASH).len() == 1);
            assert(levels[1] == rest);
        }
    }
}

/// The index level of a `<index>/set` suffix.
fn set_level(suffix: &[u8]) -> (level: Option<&[u8]>)
    ensures
        match level {
            None => !is_set_suffix(suffix@),
            Some(index) => is_set_suffix(suffix@) && index@ == split(suffix@, SLASH)[0],
        },
{
    proof {
        lemma_set_suffix(suffix@);
    }
    let (level, rest) = split_first(suffix, SLASH);
    match rest {
        None => None,
        Some(rest) => if bytes_eq(rest, "set".as_bytes()) {
            Some(level)
        } else {
            None
        },
    }
}

/// Relay index and level that a message gives, if its topic is that of a relay
/// command.
pub open spec fn relay_cmd_of(topic: Seq<u8>, payload: Seq<u8>) -> Option<(u8, bool)> {
    let suffix = relay_suffix(topic);
    if begins_with(topic, RELAY_STATE_PREFIX.spec_bytes()) && is_set_suffix(suffix) {
        match unsigned(split(suffix, SLASH)[0], 0xFF) {
            Some(index) => Some((index as u8, says_on(payload))),
            None => None,
        }
    } else {
        None
    }
}

/// Relay index and level of a relay command: the index may name no relay, and
/// every payload that does not say "on" stands for "off". `None` for a topic
/// that is not `kc868/relay/<index>/set`.
pub fn parse_relay_cmd(topic: &str, payload: &[u8]) -> (command: Option<(u8, bool)>)
    ensures
        command == relay_cmd_of(topic.spec_bytes(), payload@),
{
    let rest: &[u8] = match strip_prefix(topic.as_bytes(), RELAY_STATE_PREFIX.as_bytes()) {
        None => {
            return None;
        },
        Some(rest) => rest,
    };
    let suffix: &[u8] = trim_start_byte(rest, SLASH);
    match set_level(suffix) {
        None => None,
        Some(level) => match parse_u8(level) {
            None => None,
            Some(idx) => Some((idx, is_on(payload))),
        },
    }
}

/// What an inbound message comes to.
#[derive(Debug, Clone, Copy, PartialEq, Eq, Structural)]
pub enum Inbound {
    /// A reset of the interlock was asked for, and granted or not.
    SafetyReset { granted: bool },
    /// A relay is to be switched.
    Relay(RelayCommand),
    /// A relay topic that is not `<index>/set`.
    Malformed,
    /// The relay index is no number, or too large for one.
    NotNumeric,
    /// There is no such relay.
    OutOfRange { index: u8 },
    /// The payload is neither on nor off.
    BadPayload { index: u8 },
    /// No topic that is served.
    Unknown,
}

/// What a message on a relay topic comes to.
pub open spec fn relay_request(suffix: Seq<u8>, payload: Seq<u8>) -> Inbound {
    if !is_set_suffix(suffix) {
        Inbound::Malformed
    } else {
        match unsigned(split(suffix, SLASH)[0], 0xFF) {
            None => Inbound::NotNumeric,
            Some(index) => if index >= COUNT {
                Inbound::OutOfRange { index: index as u8 }
            } else if commands_on(payload) {
                Inbound::Relay(RelayCommand::SetRelay { index: index as u8, on: true })
            } else if commands_off(payload) {
                Inbound::Relay(RelayCommand::SetRelay { index: index as u8, on: false })
            } else {
                Inbound::BadPayload { index: index as u8 }
            },
        }
    }
}

/// What a message comes to, with the state that the tasks share.
pub open spec fn inbound_of(
    topic: Seq<u8>,
    payload: Seq<u8>,
    shared: Shared,
) -> Inbound {
    if topic == SAFETY_RESET.spec_bytes() {
        Inbound::SafetyReset { granted: reset_granted(shared) }
    } else if begins_with(topic, RELAY_STATE_PREFIX.spec_bytes()) {
        relay_request(relay_suffix(topic), payload)
    } else {
        Inbound::Unknown
    }
}

/// The state that the tasks share, after a message on `topic`.
pub open spec fn shared_after_inbound(topic: Seq<u8>, shared: Shared) -> Shared {
    if topic == SAFETY_RESET.spec_bytes() {
        after_reset(shared)
    } else {
        shared
    }
}

/// Take in one message. A reset request is carried out; a relay command is
/// handed back to be sent on.
pub fn handle_inbound(topic: &str, payload: &[u8], shared: &mut Shared) -> (inbound:
    Inbound)
    ensures
        inbound == inbound_of(topic.spec_bytes(), payload@, *old(shared)),
        *final(shared) == (if topic.spec_bytes() == SAFETY_RESET.spec_bytes() {
            after_reset(*old(shared))
        } else {
            *old(shared)
        }),
        *final(shared) == shared_after_inbound(topic.spec_bytes(), *old(shared)),
{
    if bytes_eq(topic.as_bytes(), SAFETY_RESET.as_bytes()) {
        return Inbound::SafetyReset { granted: try_safety_reset(shared) };
    }
    if let Some(rest) = strip_prefix(topic.as_bytes(), RELAY_STATE_PREFIX.as_bytes()) {
        return handle_relay_set(trim_start_byte(rest, SLASH), payload);
    }
    Inbound::Unknown
}

/// What a message on a relay topic comes to, `suffix` being what follows the
/// relay prefix.
pub fn handle_relay_set(suffix: &[u8], payload: &[u8]) -> (inbound: Inbound)
    ensures
        inbound == relay_request(suffix@, payload@),
{
    let level: &[u8] = match set_level(suffix) {
        None => {
            return Inbound::Malformed;
        },
        Some(level) => level,
    };
    let index: u8 = match parse_u8(level) {
        None => {
            return Inbound::NotNumeric;
        },
        Some(index) => index,
    };
    if (index as usize) >= COUNT {
        return Inbound::OutOfRange { index };
    }
    if is_on(payload) || bytes_eq(payload, "TRUE".as_bytes()) {
        return Inbound::Relay(RelayCommand::SetRelay { index, on: true });
    }
    if bytes_eq(payload, "0".as_bytes()) || bytes_eq(payload, "off".as_bytes()) || bytes_eq(
        payload,
        "OFF".as_bytes(),
    ) || bytes_eq(payload, "false".as_bytes()) || bytes_eq(payload, "FALSE".as_bytes()) {
        return Inbound::Relay(RelayCommand::SetRelay { index, on: false });
    }
    Inbound::BadPayload { index }
}

/// Topic on which a relay is commanded.
pub open spec fn command_topic(index: nat) -> Seq<char> {
    joined(seq![BASE@, "/relay/"@, decimal_text(index), "/set"@])
}

proof fn lemma_command_suffix(index: nat)
    ensures
        ({
            let topic = encode_utf8(command_topic(index));
            &&& begins_with(topic, RELAY_STATE_PREFIX.spec_bytes())
            &&& relay_suffix(topic) == encode_utf8(decimal_text(index)) + "/set".spec_bytes()
            &&& topic != SAFETY_RESET.spec_bytes()
        }),
{
    reveal_strlit("kc868");
    reveal_strlit("/relay/");
    reveal_strlit("kc868/relay");
    reveal_strlit("/set");
    reveal_strlit("kc868/safety/reset");
    reveal_with_fuel(joined, 5);
    let digits = decimal_text(index);
    let chars = command_topic(index);
    let tail = digits + "/set"@;
    let prefix = RELAY_STATE_PREFIX.spec_bytes();
    lemma_decimal_ascii(index);
    lemma_decimal_reads(index);
    assert(chars =~= (RELAY_STATE_PREFIX@ + seq!['/']) + tail);
    is_ascii_chars_encode_utf8(RELAY_STATE_PREFIX@);
    is_ascii_chars_encode_utf8(RELAY_STATE_PREFIX@ + seq!['/']);
    is_ascii_chars_encode_utf8(SAFETY_RESET@);
    lemma_encode_concat(RELAY_STATE_PREFIX@ + seq!['/'], tail);
    lemma_encode_concat(RELAY_STATE_PREFIX@, seq!['/']);
    lemma_encode_concat(digits, "/set"@);
    is_ascii_chars_encode_utf8(seq!['/']);
    let topic = encode_utf8(chars);
    let rest = encode_utf8(tail);
    assert(seq!['/'][0] as u8 == encode_utf8(seq!['/'])[0]);
    assert(topic.take(prefix.len() as int) =~= prefix);
    assert(topic.skip(prefix.len() as int) =~= encode_utf8(seq!['/']) + rest);
    let behind = topic.skip(prefix.len() as int);
    assert(behind[0] == SLASH);
    assert(behind.drop_first() =~= rest);
    assert(rest[0] == encode_utf8(digits)[0]);
    assert(digits[0] as u8 == encode_utf8(digits)[0]) by {
        is_ascii_chars_encode_utf8(digits);
    }
    assert(is_digit(encode_utf8(digits)[0]));
    reveal_with_fuel(without_leading, 3);
    assert(topic[6] == RELAY_STATE_PREFIX@[6] as u8);
    assert(SAFETY_RESET.spec_bytes()[6] == SAFETY_RESET@[6] as u8);
}

/// The topic on which a relay is commanded is read as a command to that relay,
/// with whatever level the payload gives.
pub proof fn law_command_topics_parse(index: u8, payload: Seq<u8>)
    ensures
        ({
            let topic = encode_utf8(command_topic(index as nat));
            &&& relay_cmd_of(topic, payload) == Some((index, says_on(payload)))
            &&& is_set_suffix(relay_suffix(topic))
            &&& unsigned(split(relay_suffix(topic), SLASH)[0], 0xFF) == Some(index as nat)
        }),
{
    let digits = encode_utf8(decimal_text(index as nat));
    let suffix = digits + "/set".spec_bytes();
    lemma_command_suffix(index as nat);
    lemma_decimal_reads(index as nat);
    law_decimal_reads_back(index as nat, 0xFF);
    lemma_set_suffix(suffix);
    reveal_strlit("/set");
    reveal_strlit("set");
    is_ascii_chars_encode_utf8("/set"@);
    is_ascii_chars_encode_utf8("set"@);
    lemma_first_of(suffix, SLASH);
    assert("/set"@[0] as u8 == "/set".spec_bytes()[0]);
    assert(suffix[digits.len() as int] == SLASH);
    assert forall|i: int| 0 <= i < digits.len() implies suffix[i] != SLASH by {
        assert(suffix[i] == digits[i]);
        assert(is_digit(digits[i]));
    }
    assert(first_of(suffix, SLASH) == digits.len());
    assert("/set"@.drop_first() =~= "set"@);
    assert(suffix.skip(digits.len() + 1int) =~= "set".spec_bytes()) by {
        assert forall|i: int| 0 <= i < 3 implies suffix.skip(digits.len() + 1int)[i]
            == "set".spec_bytes()[i] by {
            assert("/set"@[i + 1] as u8 == "/set".spec_bytes()[i + 1]);
            assert("set"@[i] as u8 == "set".spec_bytes()[i]);
        }
    }
    assert(suffix.take(digits.len() as int) =~= digits);
}

/// A command on the topic of a relay, with the word for its level, switches
/// that relay to that level.
pub proof fn law_commands_reach_their_relay(index: u8, on: bool, shared: Shared)
    requires
        index < COUNT,
    ensures
        inbound_of(
            encode_utf8(command_topic(index as nat)),
            encode_utf8(level_text(on)),
            shared,
        ) == Inbound::Relay(RelayCommand::SetRelay { index, on }),
{
    lemma_command_suffix(index as nat);
    law_command_topics_parse(index, encode_utf8(level_text(on)));
    if !on {
        reveal_strlit("OFF");
        reveal_strlit("1");
        reveal_strlit("on");
        reveal_strlit("ON");
        reveal_strlit("true");
        reveal_strlit("TRUE");
        is_ascii_chars_encode_utf8("OFF"@);
        is_ascii_chars_encode_utf8("1"@);
        is_ascii_chars_encode_utf8("on"@);
        is_ascii_chars_encode_utf8("ON"@);
        is_ascii_chars_encode_utf8("true"@);
        is_ascii_chars_encode_utf8("TRUE"@);
    }
}

/// A message to be published.
pub struct Message {
    pub topic: String,
    pub payload: String,
    /// Whether the broker is to confirm it.
    pub confirmed: bool,
    /// Whether the broker keeps it for later subscribers.
    pub retained: bool,
}

/// Topic on which the state of a relay is published.
pub open spec fn relay_state_topic(index: nat) -> Seq<char> {
    joined(seq![RELAY_STATE_PREFIX@, "/"@, decimal_text(index), "/state"@])
}

/// The word for a relay level.
pub open spec fn level_text(on: bool) -> Seq<char> {
    if on {
        "ON"@
    } else {
        "OFF"@
    }
}

/// The word for the state of the interlock.
pub open spec fn safety_text(locked: bool) -> Seq<char> {
    if locked {
        "locked"@
    } else {
        "ok"@
    }
}

/// Whether relay `index` is among those of `mask`.
pub open spec fn relay_level(mask: u8, index: u8) -> bool {
    is_high(mask, index)
}

/// The message that tells the state of one relay, `mask` being the relays that
/// are on.
pub fn relay_state_message(mask: u8, index: u8) -> (message: Message)
    requires
        index < COUNT,
    ensures
        message.topic@ == relay_state_topic(index as nat),
        message.payload@ == level_text(is_high(mask, index)),
        message.payload@ == level_text(relay_level(mask, index)),
        !message.confirmed,
        message.retained,
{
    let number: String = decimal(index as u32);
    let parts: [&str; 4] = [RELAY_STATE_PREFIX, "/", number.as_str(), "/state"];
    let ghost pieces = texts(parts@);
    proof {
        reveal_strlit("kc868/relay");
        reveal_strlit("/");
        reveal_strlit("/state");
        is_ascii_chars_encode_utf8(parts[0]@);
        is_ascii_chars_encode_utf8(parts[1]@);
        is_ascii_chars_encode_utf8(parts[3]@);
        lemma_decimal_ascii(index as nat);
        lemma_decimal_len(index as nat);
        lemma_joined_len(pieces);
        reveal_with_fuel(total_len, 5);
        assert(pieces =~= seq![parts[0]@, parts[1]@, number@, parts[3]@]);
    }
    let topic: String = write_pieces::<48>(parts.as_slice()).text;
    let payload: String = if mask & (1u8 << index) != 0 {
        "ON".to_owned()
    } else {
        "OFF".to_owned()
    };
    Message { topic, payload, confirmed: false, retained: true }
}

/// The message that tells the state of the interlock.
pub fn safety_state_message(locked: bool) -> (message: Message)
    ensures
        message.topic@ == SAFETY_STATE@,
        message.payload@ == safety_text(locked),
        !message.confirmed,
        message.retained,
{
    let payload: String = if locked {
        "locked".to_owned()
    } else {
        "ok".to_owned()
    };
    Message { topic: SAFETY_STATE.to_owned(), payload, confirmed: false, retained: true }
}

/// The message that tells that the board is there: at the start of a session,
/// which the broker confirms, and as a heartbeat.
pub fn online_message(start: bool) -> (message: Message)
    ensures
        message.topic@ == STATUS@,
        message.payload@ == "online"@,
        message.confirmed == start,
        message.retained,
{
    Message {
        topic: STATUS.to_owned(),
        payload: "online".to_owned(),
        confirmed: start,
        retained: true,
    }
}

/// The message that the broker publishes once the board is gone.
pub fn will_message() -> (message: Message)
    ensures
        message.topic@ == STATUS@,
        message.payload@ == "offline"@,
        !message.confirmed,
        message.retained,
{
    Message {
        topic: STATUS.to_owned(),
        payload: "offline".to_owned(),
        confirmed: false,
        retained: true,
    }
}

/// The message that carries a temperature in degrees Celsius, as text.
pub fn temperature_message(celsius: &str) -> (message: Message)
    ensures
        message.topic@ == TEMPERATURE@,
        message.payload@ == celsius@,
        !message.confirmed,
        !message.retained,
{
    Message {
        topic: TEMPERATURE.to_owned(),
        payload: celsius.to_owned(),
        confirmed: false,
        retained: false,
    }
}

/// Which of the two sessions of the board.
#[derive(Debug, Clone, Copy, PartialEq, Eq, Structural)]
pub enum Session {
    Publisher,
    Subscriber,
}

/// What marks the client id of a session.
pub open spec fn id_suffix(session: Session) -> Seq<char> {
    match session {
        Session::Publisher => "-pub"@,
        Session::Subscriber => "-sub"@,
    }
}

/// The client id of a session: the configured one, marked by the session.
pub open spec fn id_of(configured: Seq<char>, session: Session) -> Seq<char> {
    configured + id_suffix(session)
}

/// The client id of a session: the configured one, marked by the session.
pub fn client_id(configured: &str, session: Session) -> (id: String)
    ensures
        id@ == configured@ + id_suffix(session),
        id@ == id_of(configured@, session),
{
    let mut id: String = configured.to_owned();
    match session {
        Session::Publisher => id.append("-pub"),
        Session::Subscriber => id.append("-sub"),
    }
    id
}

/// The two sessions never have the same client id.
pub proof fn law_client_ids_differ(configured: Seq<char>)
    ensures
        configured + id_suffix(Session::Publisher) != configured + id_suffix(Session::Subscriber),
{
    reveal_strlit("-pub");
    reveal_strlit("-sub");
    let at = configured.len() + 1int;
    assert((configured + id_suffix(Session::Publisher))[at] == 'p');
    assert((configured + id_suffix(Session::Subscriber))[at] == 's');
}

/// The port that a text gives, 1883 if it gives none.
pub open spec fn port_of(text: Seq<u8>) -> u16 {
    match unsigned(text, 0xFFFF) {
        Some(number) => number as u16,
        None => DEFAULT_PORT,
    }
}

/// The port that a text gives, 1883 if it gives none.
pub fn broker_port(text: &str) -> (port: u16)
    ensures
        port == (match unsigned(text.spec_bytes(), 0xFFFF) {
            Some(number) => number as u16,
            None => DEFAULT_PORT,
        }),
        port == port_of(text.spec_bytes()),
{
    match parse_unsigned(text.as_bytes(), 0xFFFF) {
        Some(number) => number as u16,
        None => DEFAULT_PORT,
    }
}

/// The configured address if there is one, else the first answer.
pub open spec fn address_of<A>(literal: Option<A>, answers: Seq<A>) -> Option<A> {
    match literal {
        Some(own) => Some(own),
        None => if answers.len() > 0 {
            Some(answers[0])
        } else {
            None
        },
    }
}

/// The address of the broker: the configured name if it is an address itself,
/// else the first answer of the name server.
pub fn resolve<A: Copy>(literal: Option<A>, answers: &[A]) -> (address: Option<A>)
    ensures
        address == (match literal {
            Some(own) => Some(own),
            None => if answers@.len() > 0 {
                Some(answers@[0])
            } else {
                None
            },
        }),
        address == address_of(literal, answers@),
{
    match literal {
        Some(own) => Some(own),
        None => if answers.len() > 0 {
            Some(answers[0])
        } else {
            None
        },
    }
}

/// Relay `i` is commanded on `kc868/relay/<i>/set` and tells its state on
/// `kc868/relay/<i>/state`.
pub proof fn law_relay_topic_texts(index: nat)
    ensures
        command_topic(index) == "kc868/relay/"@ + decimal_text(index) + "/set"@,
        relay_state_topic(index) == "kc868/relay/"@ + decimal_text(index) + "/state"@,
{
    reveal_strlit("kc868");
    reveal_strlit("/relay/");
    reveal_strlit("kc868/relay");
    reveal_strlit("/");
    reveal_strlit("kc868/relay/");
    let pieces = seq![BASE@, "/relay/"@, decimal_text(index), "/set"@];
    lemma_joined_step(pieces, 0);
    lemma_joined_step(pieces, 1);
    lemma_joined_step(pieces, 2);
    lemma_joined_step(pieces, 3);
    assert(joined(pieces.take(2)) =~= "kc868/relay/"@);
    let pieces = seq![RELAY_STATE_PREFIX@, "/"@, decimal_text(index), "/state"@];
    lemma_joined_step(pieces, 0);
    lemma_joined_step(pieces, 1);
    lemma_joined_step(pieces, 2);
    lemma_joined_step(pieces, 3);
    assert(joined(pieces.take(2)) =~= "kc868/relay/"@);
}

/// Different relays are commanded, and tell their state, on different topics,
/// and no relay tells its state on a topic on which one is commanded.
pub proof fn law_relay_topics_differ(i: nat, j: nat)
    ensures
        i != j ==> command_topic(i) != command_topic(j),
        i != j ==> relay_state_topic(i) != relay_state_topic(j),
        command_topic(i) != relay_state_topic(j),
{
    reveal_strlit("kc868/relay/");
    reveal_strlit("/set");
    reveal_strlit("/state");
    law_relay_topic_texts(i);
    law_relay_topic_texts(j);
    let a = decimal_text(i);
    let b = decimal_text(j);
    if i != j {
        law_decimal_tells_apart(i, j);
        if command_topic(i) == command_topic(j) {
            assert(command_topic(i).subrange(12, 12int + a.len()) =~= a);
            assert(command_topic(j).subrange(12, 12int + b.len()) =~= b);
        }
        if relay_state_topic(i) == relay_state_topic(j) {
            assert(relay_state_topic(i).subrange(12, 12int + a.len()) =~= a);
            assert(relay_state_topic(j).subrange(12, 12int + b.len()) =~= b);
        }
    }
    let set = command_topic(i);
    let state = relay_state_topic(j);
    assert(set[set.len() - 1] == 't');
    assert(state[state.len() - 1] == 'e');
}

/// The words that switch a relay on.
pub open spec fn on_word(payload: Seq<u8>) -> bool {
    ||| payload == "1".spec_bytes()
    ||| payload == "on".spec_bytes()
    ||| payload == "ON".spec_bytes()
    ||| payload == "true".spec_bytes()
    ||| payload == "TRUE".spec_bytes()
}

/// The words that switch a relay off.
pub open spec fn off_word(payload: Seq<u8>) -> bool {
    ||| payload == "0".spec_bytes()
    ||| payload == "off".spec_bytes()
    ||| payload == "OFF".spec_bytes()
    ||| payload == "false".spec_bytes()
    ||| payload == "FALSE".spec_bytes()
}

proof fn lemma_words_apart(payload: Seq<u8>)
    ensures
        !(on_word(payload) && off_word(payload)),
{
    reveal_strlit("1");
    reveal_strlit("on");
    reveal_strlit("ON");
    reveal_strlit("true");
    reveal_strlit("TRUE");
    reveal_strlit("0");
    reveal_strlit("off");
    reveal_strlit("OFF");
    reveal_strlit("false");
    reveal_strlit("FALSE");
    is_ascii_chars_encode_utf8("1"@);
    is_ascii_chars_encode_utf8("on"@);
    is_ascii_chars_encode_utf8("ON"@);
    is_ascii_chars_encode_utf8("true"@);
    is_ascii_chars_encode_utf8("TRUE"@);
    is_ascii_chars_encode_utf8("0"@);
    is_ascii_chars_encode_utf8("off"@);
    is_ascii_chars_encode_utf8("OFF"@);
    is_ascii_chars_encode_utf8("false"@);
    is_ascii_chars_encode_utf8("FALSE"@);
    assert("1"@[0] as u8 == "1".spec_bytes()[0]);
    assert("0"@[0] as u8 == "0".spec_bytes()[0]);
}

/// A message on the command topic of a relay switches that relay exactly if
/// there is such a relay and the payload is one of the words for on and off; a
/// number beyond the relays and any other payload are named as what is wrong.
pub proof fn law_command_messages(index: u8, payload: Seq<u8>, shared: Shared)
    ensures
        ({
            let inbound = inbound_of(encode_utf8(command_topic(index as nat)), payload, shared);
            &&& index >= 6 ==> inbound == (Inbound::OutOfRange { index })
            &&& index < 6 && on_word(payload) ==> inbound == Inbound::Relay(
                RelayCommand::SetRelay { index, on: true },
            )
            &&& index < 6 && off_word(payload) ==> inbound == Inbound::Relay(
                RelayCommand::SetRelay { index, on: false },
            )
            &&& index < 6 && !on_word(payload) && !off_word(payload) ==> inbound == (
            Inbound::BadPayload { index })
        }),
{
    lemma_command_suffix(index as nat);
    law_command_topics_parse(index, payload);
    lemma_words_apart(payload);
}

/// Whatever the message, a relay command that comes of it is for a relay that
/// there is, and its level is the one that the payload names; no other command
/// comes of a message.
pub proof fn law_only_words_switch(topic: Seq<u8>, payload: Seq<u8>, shared: Shared)
    ensures
        inbound_of(topic, payload, shared) matches Inbound::Relay(command) ==> (
        command matches RelayCommand::SetRelay { index, on } && index < 6 && (on ==> on_word(
            payload,
        )) && (!on ==> off_word(payload))),
{
}

/// Only the reset topic asks for a reset, whatever the payload; any other
/// message leaves the shared state as it is. A topic that is neither that nor
/// below `kc868/relay` comes to nothing.
pub proof fn law_only_the_reset_topic_resets(topic: Seq<u8>, payload: Seq<u8>, shared: Shared)
    ensures
        inbound_of(topic, payload, shared) is SafetyReset <==> topic
            == "kc868/safety/reset".spec_bytes(),
        topic == "kc868/safety/reset".spec_bytes() ==> {
            &&& inbound_of(topic, payload, shared) == (Inbound::SafetyReset {
                granted: shared.locked && !shared_after_inbound(topic, shared).locked,
            })
            &&& shared.locked && shared.input_mask == 0x3F ==> !shared_after_inbound(
                topic,
                shared,
            ).locked
        },
        topic != "kc868/safety/reset".spec_bytes() ==> shared_after_inbound(topic, shared)
            == shared,
        topic != "kc868/safety/reset".spec_bytes() && !begins_with(
            topic,
            "kc868/relay".spec_bytes(),
        ) ==> inbound_of(topic, payload, shared) == Inbound::Unknown,
{
}

/// On a topic below `kc868/relay`, what follows the first level behind it must
/// be `set`, and that level must be a number.
pub proof fn law_relay_topics_need_a_number_and_set(
    level: Seq<u8>,
    tail: Seq<u8>,
    payload: Seq<u8>,
)
    requires
        !level.contains(0x2F),
    ensures
        tail != "set".spec_bytes() ==> relay_request(level + seq![0x2Fu8] + tail, payload)
            == Inbound::Malformed,
        tail == "set".spec_bytes() && unsigned(level, 0xFF) is None ==> relay_request(
            level + seq![0x2Fu8] + tail,
            payload,
        ) == Inbound::NotNumeric,
        relay_request(level, payload) == Inbound::Malformed,
{
    let suffix = level + seq![0x2Fu8] + tail;
    lemma_first_behind(level, SLASH, tail);
    lemma_set_suffix(suffix);
    lemma_set_suffix(level);
    lemma_first_of(level, SLASH);
    if first_of(level, SLASH) < level.len() {
        assert(level.contains(level[first_of(level, SLASH)]));
    }
}

/// A relay is told to be on exactly if its bit is set in the mask.
pub proof fn law_state_messages_tell_the_mask(mask: u8, index: u8)
    requires
        index < 8,
    ensures
        relay_level(mask, index) <==> (mask >> index) & 1 == 1,
        level_text(true) == "ON"@,
        level_text(false) == "OFF"@,
        safety_text(true) == "locked"@,
        safety_text(false) == "ok"@,
{
    assert((mask & (1u8 << index) != 0) == ((mask >> index) & 1 == 1)) by (bit_vector)
        requires
            index < 8,
    ;
}

/// Every port from 0 to 65535 is taken as it was written, and any text that is
/// no such number stands for 1883.
pub proof fn law_ports_are_read_whole(port: u16, text: Seq<u8>)
    ensures
        port_of(encode_utf8(decimal_text(port as nat))) == port,
        unsigned(text, 65535) is None ==> port_of(text) == 1883,
{
    law_decimal_reads_back(port as nat, 0xFFFF);
}

/// A configured address is taken whatever the name server says; without one it
/// is the first answer, and without answers there is none.
pub proof fn law_first_answer_is_taken<A>(own: A, answers: Seq<A>)
    ensures
        address_of(Some(own), answers) == Some(own),
        answers.len() > 0 ==> address_of(None, answers) == Some(answers[0]),
        address_of(None, Seq::<A>::empty()) is None,
{
}

/// A client id is the whole configured one with the mark of the session behind
/// it, so boards with different ids never share one.
pub proof fn law_client_ids_keep_the_configured_one(
    one: Seq<char>,
    other: Seq<char>,
    session: Session,
)
    ensures
        id_of(one, session).len() == one.len() + 4,
        id_of(one, session).take(one.len() as int) == one,
        id_of(one, Session::Publisher) == one + "-pub"@,
        id_of(one, Session::Subscriber) == one + "-sub"@,
        one != other ==> id_of(one, session) != id_of(other, session),
{
    reveal_strlit("-pub");
    reveal_strlit("-sub");
    let a = id_of(one, session);
    let b = id_of(other, session);
    assert(a.take(one.len() as int) =~= one);
    assert(b.take(other.len() as int) =~= other);
    if a == b {
        assert(one.len() == other.len());
    }
}

/// A message is read as a command exactly if its topic is that of a relay
/// command with a number up to 255; the command has that number, and is on
/// exactly for the words `1`, `on`, `ON` and `true`.
pub proof fn law_commands_are_read_from_their_topics(
    topic: Seq<u8>,
    payload: Seq<u8>,
    shared: Shared,
)
    requires
        topic != "kc868/safety/reset".spec_bytes(),
    ensures
        says_on(payload) <==> payload == "1".spec_bytes() || payload == "on".spec_bytes()
            || payload == "ON".spec_bytes() || payload == "true".spec_bytes(),
        match inbound_of(topic, payload, shared) {
            Inbound::Relay(command) => relay_cmd_of(topic, payload) matches Some(read)
                && command matches RelayCommand::SetRelay { index, .. } && read == (
                index,
                says_on(payload),
            ),
            Inbound::OutOfRange { index } => relay_cmd_of(topic, payload) == Some(
                (index, says_on(payload)),
            ),
            Inbound::BadPayload { index } => relay_cmd_of(topic, payload) == Some(
                (index, says_on(payload)),
            ),
            _ => relay_cmd_of(topic, payload) is None,
        },
{
}

/// Slashes in front of what follows the relay prefix do not matter.
pub proof fn law_slashes_are_skipped(slashes: nat, rest: Seq<u8>)
    requires
        rest.len() == 0 || rest[0] != 0x2F,
    ensures
        relay_suffix(
            "kc868/relay".spec_bytes() + (Seq::new(slashes, |i: int| 0x2Fu8) + rest),
        ) == rest,
{
    let prefix = "kc868/relay".spec_bytes();
    let behind = Seq::new(slashes, |i: int| 0x2Fu8) + rest;
    assert((prefix + behind).skip(prefix.len() as int) =~= behind);
    law_leading_bytes_are_stripped(slashes, SLASH, rest);
}

} // verus!

//! Topics and payloads of relay commands.

use vstd::prelude::*;
use vstd::string::StringSliceAdditionalSpecFns;
use vstd::utf8::{is_ascii_chars, is_ascii_chars_encode_utf8};

use crate::bsp::mqtt_topic::RELAY_STATE_PREFIX;
use crate::format::{decimal_text, joined};
use crate::mqtt::{
    command_topic, law_command_topics_parse, lemma_set_suffix, parse_relay_cmd, relay_cmd_of,
    relay_suffix, says_on, SLASH,
};
use crate::text::{
    begins_with, first_of, is_digit, lemma_first_of, unsigned, without_leading, without_plus,
};

verus! {

/// What a message with this topic and payload is read as.
pub open spec fn read(topic: &str, payload: &str) -> Option<(u8, bool)> {
    relay_cmd_of(topic.spec_bytes(), payload.spec_bytes())
}

/// The values that the suite checks.
pub open spec fn expectations() -> bool {
    &&& read("kc868/relay/3/set", "1") == Some((3u8, true))
    &&& read("kc868/relay/0/set", "0") == Some((0u8, false))
    &&& read("kc868/relay/1/set", "on") == Some((1u8, true))
    &&& read("kc868/relay/1/set", "ON") == Some((1u8, true))
    &&& read("kc868/relay/1/set", "true") == Some((1u8, true))
    &&& read("kc868/relay/2/set", "garbage") == Some((2u8, false))
    &&& read("kc868/status", "1") is None
    &&& read("kc868/temperature", "25") is None
    &&& read("other/relay/0/set", "1") is None
    &&& read("kc868/relay/0", "1") is None
    &&& read("kc868/relay/0/state", "1") is None
    &&& read("kc868/relay/abc/set", "1") is None
    &&& read("kc868/relay//set", "1") is None
    &&& read("kc868/relay/0/set", "") == Some((0u8, false))
    &&& read("kc868/relay/0/set/extra", "1") is None
    &&& read("kc868/relay/0/set", "1") == Some((0u8, true))
    &&& read("kc868/relay/5/set", "1") == Some((5u8, true))
    &&& read("kc868/relay/99/set", "1") == Some((99u8, true))
}

/// A topic that is that of a relay command.
proof fn lemma_command(topic: &str, payload: &str, index: u8)
    requires
        topic@ == command_topic(index as nat),
    ensures
        read(topic, payload) == Some((index, says_on(payload.spec_bytes()))),
{
    law_command_topics_parse(index, payload.spec_bytes());
}

proof fn lemma_accepted()
    ensures
        "kc868/relay/0/set"@ == command_topic(0),
        "kc868/relay/1/set"@ == command_topic(1),
        "kc868/relay/2/set"@ == command_topic(2),
        "kc868/relay/3/set"@ == command_topic(3),
        "kc868/relay/5/set"@ == command_topic(5),
        "kc868/relay/99/set"@ == command_topic(99),
{
    reveal_strlit("kc868");
    reveal_strlit("/relay/");
    reveal_strlit("/set");
    reveal_strlit("kc868/relay/0/set");
    reveal_strlit("kc868/relay/1/set");
    reveal_strlit("kc868/relay/2/set");
    reveal_strlit("kc868/relay/3/set");
    reveal_strlit("kc868/relay/5/set");
    reveal_strlit("kc868/relay/99/set");
    reveal_with_fuel(joined, 5);
    reveal_with_fuel(decimal_text, 3);
    assert("kc868/relay/0/set"@ =~= command_topic(0));
    assert("kc868/relay/1/set"@ =~= command_topic(1));
    assert("kc868/relay/2/set"@ =~= command_topic(2));
    assert("kc868/relay/3/set"@ =~= command_topic(3));
    assert("kc868/relay/5/set"@ =~= command_topic(5));
    assert("kc868/relay/99/set"@ =~= command_topic(99));
}

proof fn lemma_off_words()
    ensures
        !says_on("0".spec_bytes()),
        !says_on("".spec_bytes()),
        !says_on("garbage".spec_bytes()),
{
    reveal_strlit("0");
    reveal_strlit("");
    reveal_strlit("garbage");
    reveal_strlit("1");
    reveal_strlit("on");
    reveal_strlit("ON");
    reveal_strlit("true");
    is_ascii_chars_encode_utf8("0"@);
    is_ascii_chars_encode_utf8(""@);
    is_ascii_chars_encode_utf8("garbage"@);
    is_ascii_chars_encode_utf8("1"@);
    is_ascii_chars_encode_utf8("on"@);
    is_ascii_chars_encode_utf8("ON"@);
    is_ascii_chars_encode_utf8("true"@);
    assert("0"@[0] as u8 == "0".spec_bytes()[0]);
    assert("1"@[0] as u8 == "1".spec_bytes()[0]);
}

/// Topics that lack the relay prefix.
proof fn lemma_wrong_prefix(payload: &str)
    ensures
        read("kc868/status", payload) is None,
        read("kc868/temperature", payload) is None,
        read("other/relay/0/set", payload) is None,
{
    reveal_strlit("kc868/relay");
    reveal_strlit("kc868/status");
    reveal_strlit("kc868/temperature");
    reveal_strlit("other/relay/0/set");
    is_ascii_chars_encode_utf8("kc868/relay"@);
    is_ascii_chars_encode_utf8("kc868/status"@);
    is_ascii_chars_encode_utf8("kc868/temperature"@);
    is_ascii_chars_encode_utf8("other/relay/0/set"@);
    let prefix = RELAY_STATE_PREFIX.spec_bytes();
    assert(prefix[6] == RELAY_STATE_PREFIX@[6] as u8);
    assert(prefix[0] == RELAY_STATE_PREFIX@[0] as u8);
    assert("kc868/status".spec_bytes()[6] == "kc868/status"@[6] as u8);
    assert("kc868/temperature".spec_bytes()[6] == "kc868/temperature"@[6] as u8);
    assert("other/relay/0/set".spec_bytes()[0] == "other/relay/0/set"@[0] as u8);
    assert(!begins_with("kc868/status".spec_bytes(), prefix)) by {
        assert("kc868/status".spec_bytes().take(11)[6] == "kc868/status".spec_bytes()[6]);
    }
    assert(!begins_with("kc868/temperature".spec_bytes(), prefix)) by {
        assert("kc868/temperature".spec_bytes().take(11)[6]
            == "kc868/temperature".spec_bytes()[6]);
    }
    assert(!begins_with("other/relay/0/set".spec_bytes(), prefix)) by {
        assert("other/relay/0/set".spec_bytes().take(11)[0]
            == "other/relay/0/set".spec_bytes()[0]);
    }
}

/// What follows the relay prefix and one slash.
proof fn lemma_suffix(topic: &str, rest: &str, slashes: int)
    requires
        1 <= slashes <= 2,
        topic@ == RELAY_STATE_PREFIX@ + Seq::new(slashes as nat, |i: int| '/') + rest@,
        rest@.len() > 0,
        rest@[0] != '/',
        is_ascii_chars(topic@),
        is_ascii_chars(rest@),
    ensures
        relay_suffix(topic.spec_bytes()) == rest.spec_bytes(),
{
    reveal_strlit("kc868/relay");
    is_ascii_chars_encode_utf8(RELAY_STATE_PREFIX@);
    is_ascii_chars_encode_utf8(topic@);
    is_ascii_chars_encode_utf8(rest@);
    let bytes = topic.spec_bytes();
    let behind = bytes.skip(11);
    let after = rest.spec_bytes();
    assert forall|i: int| 0 <= i < after.len() implies bytes[11 + slashes + i] == after[i] by {
        assert(topic@[11 + slashes + i] == rest@[i]);
        assert(rest@[i] as u8 == after[i]);
    }
    assert(topic@[11] as u8 == bytes[11]);
    assert(topic@[12] as u8 == bytes[12]);
    assert(rest@[0] as u8 == after[0]);
    assert(after[0] != SLASH);
    reveal_with_fuel(without_leading, 4);
    assert(behind.skip(slashes) =~= after);
    assert(behind.drop_first() =~= behind.skip(1));
    if slashes == 2 {
        assert(behind.drop_first().drop_first() =~= behind.skip(2));
        assert(behind.drop_first()[0] == SLASH);
    }
}

/// A suffix whose first slash is at `at`, and what follows it.
proof fn lemma_level(rest: &str, at: int)
    requires
        0 <= at < rest@.len(),
        is_ascii_chars(rest@),
        rest@[at] == '/',
        forall|i: int| 0 <= i < at ==> rest@[i] != '/',
    ensures
        first_of(rest.spec_bytes(), SLASH) == at,
{
    is_ascii_chars_encode_utf8(rest@);
    let bytes = rest.spec_bytes();
    lemma_first_of(bytes, SLASH);
    assert forall|i: int| 0 <= i < at implies bytes[i] != SLASH by {
        assert(rest@[i] as u8 == bytes[i]);
    }
    assert(rest@[at] as u8 == bytes[at]);
}

/// Topics that have the prefix but are no commands.
proof fn lemma_malformed(payload: &str)
    ensures
        read("kc868/relay/0", payload) is None,
        read("kc868/relay/0/state", payload) is None,
        read("kc868/relay/abc/set", payload) is None,
        read("kc868/relay//set", payload) is None,
        read("kc868/relay/0/set/extra", payload) is None,
{
    reveal_strlit("kc868/relay");
    reveal_strlit("set");
    is_ascii_chars_encode_utf8("set"@);
    assert(read("kc868/relay/0", payload) is None) by {
        reveal_strlit("kc868/relay/0");
        reveal_strlit("0");
        assert("kc868/relay/0"@ =~= RELAY_STATE_PREFIX@ + Seq::new(1, |i: int| '/') + "0"@);
        lemma_suffix("kc868/relay/0", "0", 1);
        is_ascii_chars_encode_utf8("0"@);
        let bytes = "0".spec_bytes();
        assert("0"@[0] as u8 == bytes[0]);
        lemma_first_of(bytes, SLASH);
        lemma_set_suffix(bytes);
    }
    assert(read("kc868/relay//set", payload) is None) by {
        reveal_strlit("kc868/relay//set");
        assert("kc868/relay//set"@ =~= RELAY_STATE_PREFIX@ + Seq::new(2, |i: int| '/') + "set"@);
        lemma_suffix("kc868/relay//set", "set", 2);
        let bytes = "set".spec_bytes();
        assert("set"@[0] as u8 == bytes[0]);
        assert("set"@[1] as u8 == bytes[1]);
        assert("set"@[2] as u8 == bytes[2]);
        lemma_first_of(bytes, SLASH);
        lemma_set_suffix(bytes);
    }
    assert(read("kc868/relay/0/state", payload) is None) by {
        reveal_strlit("kc868/relay/0/state");
        reveal_strlit("0/state");
        assert("kc868/relay/0/state"@ =~= RELAY_STATE_PREFIX@ + Seq::new(1, |i: int| '/')
            + "0/state"@);
        lemma_suffix("kc868/relay/0/state", "0/state", 1);
        lemma_level("0/state", 1);
        is_ascii_chars_encode_utf8("0/state"@);
        lemma_set_suffix("0/state".spec_bytes());
        assert("0/state".spec_bytes().skip(2).len() == 5);
    }
    assert(read("kc868/relay/0/set/extra", payload) is None) by {
        reveal_strlit("kc868/relay/0/set/extra");
        reveal_strlit("0/set/extra");
        assert("kc868/relay/0/set/extra"@ =~= RELAY_STATE_PREFIX@ + Seq::new(1, |i: int| '/')
            + "0/set/extra"@);
        lemma_suffix("kc868/relay/0/set/extra", "0/set/extra", 1);
        lemma_level("0/set/extra", 1);
        is_ascii_chars_encode_utf8("0/set/extra"@);
        lemma_set_suffix("0/set/extra".spec_bytes());
        assert("0/set/extra".spec_bytes().skip(2).len() == 9);
    }
    assert(read("kc868/relay/abc/set", payload) is None) by {
        reveal_strlit("kc868/relay/abc/set");
        reveal_strlit("abc/set");
        assert("kc868/relay/abc/set"@ =~= RELAY_STATE_PREFIX@ + Seq::new(1, |i: int| '/')
            + "abc/set"@);
        lemma_suffix("kc868/relay/abc/set", "abc/set", 1);
        lemma_level("abc/set", 3);
        is_ascii_chars_encode_utf8("abc/set"@);
        let bytes = "abc/set".spec_bytes();
        lemma_set_suffix(bytes);
        let level = bytes.take(3);
        assert("abc/set"@[0] as u8 == bytes[0]);
        assert(level[0] == bytes[0]);
        assert(!is_digit(without_plus(level)[0]));
        assert(unsigned(level, 0xFF) is None);
    }
}

/// The suite passes.
pub proof fn lemma_expectations()
    ensures
        expectations(),
{
    lemma_accepted();
    lemma_off_words();
    lemma_command("kc868/relay/3/set", "1", 3);
    lemma_command("kc868/relay/0/set", "0", 0);
    lemma_command("kc868/relay/1/set", "on", 1);
    lemma_command("kc868/relay/1/set", "ON", 1);
    lemma_command("kc868/relay/1/set", "true", 1);
    lemma_command("kc868/relay/2/set", "garbage", 2);
    lemma_command("kc868/relay/0/set", "", 0);
    lemma_command("kc868/relay/0/set", "1", 0);
    lemma_command("kc868/relay/5/set", "1", 5);
    lemma_command("kc868/relay/99/set", "1", 99);
    lemma_wrong_prefix("1");
    lemma_wrong_prefix("25");
    lemma_malformed("1");
}

fn gives(topic: &str, payload: &str, index: u8, on: bool) -> (same: bool)
    ensures
        same == (read(topic, payload) == Some((index, on))),
{
    match parse_relay_cmd(topic, payload.as_bytes()) {
        Some((i, o)) => i == index && o == on,
        None => false,
    }
}

fn refused(topic: &str, payload: &str) -> (none: bool)
    ensures
        none == (read(topic, payload) is None),
{
    parse_relay_cmd(topic, payload.as_bytes()).is_none()
}

/// Run the suite.
pub fn run_all() -> (outcome: Result<(), &'static str>)
    ensures
        outcome is Ok <==> expectations(),
        outcome is Ok,
{
    proof {
        lemma_expectations();
    }
    if !gives("kc868/relay/3/set", "1", 3, true) || !gives("kc868/relay/0/set", "0", 0, false) {
        return Err("valid command");
    }
    if !gives("kc868/relay/1/set", "on", 1, true) || !gives("kc868/relay/1/set", "ON", 1, true)
        || !gives("kc868/relay/1/set", "true", 1, true) {
        return Err("text payload");
    }
    if !gives("kc868/relay/2/set", "garbage", 2, false) {
        return Err("unknown payload");
    }
    if !refused("kc868/status", "1") || !refused("kc868/temperature", "25") || !refused(
        "other/relay/0/set",
        "1",
    ) {
        return Err("wrong prefix");
    }
    if !refused("kc868/relay/0", "1") || !refused("kc868/relay/0/state", "1") {
        return Err("missing set");
    }
    if !refused("kc868/relay/abc/set", "1") || !refused("kc868/relay//set", "1") {
        return Err("non-numeric index");
    }
    if !gives("kc868/relay/0/set", "", 0, false) {
        return Err("empty payload");
    }
    if !refused("kc868/relay/0/set/extra", "1") {
        return Err("extra topic level");
    }
    if !gives("kc868/relay/0/set", "1", 0, true) || !gives("kc868/relay/5/set", "1", 5, true)
        || !gives("kc868/relay/99/set", "1", 99, true) {
        return Err("boundary index");
    }
    Ok(())
}

} // verus!

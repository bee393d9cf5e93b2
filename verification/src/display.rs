//! Status page on the display: address, relays, temperature, safety.
//!
//! The display heals itself: if it cannot be initialised or loses its
//! connection, it is initialised again after a pause.

use vstd::prelude::*;
use vstd::utf8::is_ascii_chars_encode_utf8;

use crate::format::{
    byte_len, decimal, decimal_text, joined, lemma_decimal_ascii, lemma_decimal_len,
    lemma_joined_len, lemma_joined_step, texts, total_len, write_pieces, written,
};
use crate::pcf8574::is_high;
use crate::shared::Shared;

verus! {

/// Pause between two pages, in milliseconds.
pub const REFRESH_MS: u64 = 500;

/// Pause before the display is initialised again, in milliseconds.
pub const INIT_RETRY_MS: u64 = 5_000;

/// Base lines of the five lines.
pub const BASE_LINES: [i32; 5] = [10, 24, 38, 52, 64];

/// The mark of a relay that is on or off.
pub open spec fn mark(on: bool) -> char {
    if on {
        '#'
    } else {
        '.'
    }
}

/// The mark of one relay.
pub fn glyph(mask: u8, bit: u8) -> (c: char)
    requires
        bit < 8,
    ensures
        c == mark(is_high(mask, bit)),
{
    if mask & (1u8 << bit) != 0 {
        '#'
    } else {
        '.'
    }
}

/// The mark of one relay, as text.
fn glyph_text(mask: u8, bit: u8) -> (text: &'static str)
    requires
        bit < 8,
    ensures
        text@ == seq![mark(is_high(mask, bit))],
        byte_len(text@) == 1,
{
    let on = glyph(mask, bit) == '#';
    proof {
        reveal_strlit("#");
        reveal_strlit(".");
        is_ascii_chars_encode_utf8("#"@);
        is_ascii_chars_encode_utf8("."@);
    }
    let text: &'static str = if on {
        "#"
    } else {
        "."
    };
    assert(text@ =~= seq![mark(is_high(mask, bit))]);
    text
}

/// The line that shows the address, if there is one.
pub open spec fn address_line(address: Option<[u8; 4]>) -> Seq<char> {
    match address {
        Some(octets) => joined(
            seq![
                "IP: "@,
                decimal_text(octets[0] as nat),
                "."@,
                decimal_text(octets[1] as nat),
                "."@,
                decimal_text(octets[2] as nat),
                "."@,
                decimal_text(octets[3] as nat),
            ],
        ),
        None => "IP: (no link)"@,
    }
}

/// The line that shows the relays, a mark for each.
pub open spec fn relay_line(mask: u8) -> Seq<char> {
    seq!['R', ':'] + Seq::new(6, |i: int| mark(is_high(mask, i as u8)))
}

/// The pieces of the line that shows the temperature.
pub open spec fn temperature_line(celsius: Option<Seq<char>>) -> Seq<Seq<char>> {
    match celsius {
        Some(text) => seq!["T: "@, text, " C"@],
        None => seq!["T: --.- C"@],
    }
}

/// `line` shows the temperature, as far as it fits 32 bytes.
pub open spec fn shows_temperature(celsius: Option<Seq<char>>, line: Seq<char>) -> bool {
    written(temperature_line(celsius), 32, line)
}

/// The line that shows the safety state.
pub open spec fn safety_line(locked: bool) -> Seq<char> {
    if locked {
        "[!] SAFETY LOCK"@
    } else {
        "OK"@
    }
}

fn address_text(address: Option<[u8; 4]>) -> (line: String)
    ensures
        line@ == address_line(address),
{
    let octets: [u8; 4] = match address {
        None => {
            return "IP: (no link)".to_owned();
        },
        Some(octets) => octets,
    };
    let a: String = decimal(octets[0] as u32);
    let b: String = decimal(octets[1] as u32);
    let c: String = decimal(octets[2] as u32);
    let d: String = decimal(octets[3] as u32);
    let parts: [&str; 8] = [
        "IP: ",
        a.as_str(),
        ".",
        b.as_str(),
        ".",
        c.as_str(),
        ".",
        d.as_str(),
    ];
    let ghost pieces = texts(parts@);
    proof {
        reveal_strlit("IP: ");
        reveal_strlit(".");
        is_ascii_chars_encode_utf8("IP: "@);
        is_ascii_chars_encode_utf8("."@);
        lemma_decimal_ascii(octets[0] as nat);
        lemma_decimal_len(octets[0] as nat);
        lemma_decimal_ascii(octets[1] as nat);
        lemma_decimal_len(octets[1] as nat);
        lemma_decimal_ascii(octets[2] as nat);
        lemma_decimal_len(octets[2] as nat);
        lemma_decimal_ascii(octets[3] as nat);
        lemma_decimal_len(octets[3] as nat);
        lemma_joined_len(pieces);
        reveal_with_fuel(total_len, 9);
        assert(pieces =~= seq!["IP: "@, a@, "."@, b@, "."@, c@, "."@, d@]);
    }
    write_pieces::<32>(parts.as_slice()).text
}

fn relay_text(mask: u8) -> (line: String)
    ensures
        line@ == relay_line(mask),
{
    let parts: [&str; 7] = [
        "R:",
        glyph_text(mask, 0),
        glyph_text(mask, 1),
        glyph_text(mask, 2),
        glyph_text(mask, 3),
        glyph_text(mask, 4),
        glyph_text(mask, 5),
    ];
    let ghost pieces = texts(parts@);
    proof {
        reveal_strlit("R:");
        is_ascii_chars_encode_utf8("R:"@);
        lemma_joined_len(pieces);
        reveal_with_fuel(total_len, 8);
        reveal_with_fuel(joined, 8);
        assert(joined(pieces) =~= relay_line(mask));
    }
    write_pieces::<32>(parts.as_slice()).text
}

fn temperature_text(celsius: Option<&str>) -> (line: String)
    ensures
        written(
            temperature_line(
                match celsius {
                    Some(text) => Some(text@),
                    None => None,
                },
            ),
            32,
            line@,
        ),
{
    match celsius {
        Some(text) => {
            let parts: [&str; 3] = ["T: ", text, " C"];
            assert(texts(parts@) =~= seq!["T: "@, text@, " C"@]);
            write_pieces::<32>(parts.as_slice()).text
        },
        None => {
            let parts: [&str; 1] = ["T: --.- C"];
            assert(texts(parts@) =~= seq!["T: --.- C"@]);
            write_pieces::<32>(parts.as_slice()).text
        },
    }
}

/// The five lines of a status page.
pub struct Page {
    pub banner: &'static str,
    pub address: String,
    pub relays: String,
    pub temperature: String,
    pub safety: &'static str,
}

/// The lines of `page` that show what the tasks share.
pub open spec fn shows_state(shared: Shared, page: Page) -> bool {
    &&& page.relays@ == relay_line(shared.on_mask)
    &&& page.safety@ == safety_line(shared.locked)
}

/// A temperature as text, where one is known.
pub open spec fn as_text(celsius: Option<String>) -> Option<Seq<char>> {
    match celsius {
        Some(text) => Some(text@),
        None => None,
    }
}

/// The temperature to show: the new sample if there is one, else the last.
pub open spec fn latest(sample: Option<String>, kept: Option<String>) -> Option<String> {
    if sample is Some {
        sample
    } else {
        kept
    }
}

/// Where the display task is.
#[derive(Debug, Clone, Copy, PartialEq, Eq, Structural)]
pub enum DisplayPhase {
    Init,
    InitRetry,
    Draw,
    Refresh,
}

/// What the display task is to do.
#[derive(Debug, Clone, Copy, PartialEq, Eq, Structural)]
pub enum DisplayAction {
    /// Initialise the display.
    Init,
    /// Take the latest temperature sample, draw the page and flush it.
    Draw,
    Wait { ms: u64 },
}

/// What came of it.
#[derive(Debug, Clone, Copy, PartialEq, Eq, Structural)]
pub enum DisplayEvent {
    Initialised { ok: bool },
    Flushed { ok: bool },
    Waited,
}

impl DisplayPhase {
    pub open spec fn to_do(self) -> DisplayAction {
        match self {
            DisplayPhase::Init => DisplayAction::Init,
            DisplayPhase::InitRetry => DisplayAction::Wait { ms: INIT_RETRY_MS },
            DisplayPhase::Draw => DisplayAction::Draw,
            DisplayPhase::Refresh => DisplayAction::Wait { ms: REFRESH_MS },
        }
    }

    /// An event that does not belong to the action changes nothing.
    pub open spec fn next(self, event: DisplayEvent) -> DisplayPhase {
        match (self, event) {
            (DisplayPhase::Init, DisplayEvent::Initialised { ok: true }) => DisplayPhase::Draw,
            (
                DisplayPhase::Init,
                DisplayEvent::Initialised { ok: false },
            ) => DisplayPhase::InitRetry,
            (DisplayPhase::InitRetry, DisplayEvent::Waited) => DisplayPhase::Init,
            (DisplayPhase::Draw, DisplayEvent::Flushed { ok: true }) => DisplayPhase::Refresh,
            (DisplayPhase::Draw, DisplayEvent::Flushed { ok: false }) => DisplayPhase::Init,
            (DisplayPhase::Refresh, DisplayEvent::Waited) => DisplayPhase::Draw,
            _ => self,
        }
    }
}

/// The display task. It keeps the last temperature, so that the line does not
/// go blank while the sensor is out.
pub struct DisplayTask {
    pub phase: DisplayPhase,
    pub celsius: Option<String>,
}

impl DisplayTask {
    pub fn new() -> (task: Self)
        ensures
            task.phase == DisplayPhase::Init,
            task.celsius is None,
    {
        DisplayTask { phase: DisplayPhase::Init, celsius: None }
    }

    /// What to do now.
    pub fn action(&self) -> (action: DisplayAction)
        ensures
            action == self.phase.to_do(),
    {
        match self.phase {
            DisplayPhase::Init => DisplayAction::Init,
            DisplayPhase::InitRetry => DisplayAction::Wait { ms: INIT_RETRY_MS },
            DisplayPhase::Draw => DisplayAction::Draw,
            DisplayPhase::Refresh => DisplayAction::Wait { ms: REFRESH_MS },
        }
    }

    /// Take in what came of the action.
    pub fn advance(&mut self, event: DisplayEvent)
        ensures
            final(self).phase == old(self).phase.next(event),
            final(self).celsius == old(self).celsius,
    {
        let next = match (self.phase, event) {
            (DisplayPhase::Init, DisplayEvent::Initialised { ok: true }) => DisplayPhase::Draw,
            (
                DisplayPhase::Init,
                DisplayEvent::Initialised { ok: false },
            ) => DisplayPhase::InitRetry,
            (DisplayPhase::InitRetry, DisplayEvent::Waited) => DisplayPhase::Init,
            (DisplayPhase::Draw, DisplayEvent::Flushed { ok: true }) => DisplayPhase::Refresh,
            (DisplayPhase::Draw, DisplayEvent::Flushed { ok: false }) => DisplayPhase::Init,
            (DisplayPhase::Refresh, DisplayEvent::Waited) => DisplayPhase::Draw,
            (same, _) => same,
        };
        self.phase = next;
    }

    /// The page to draw, with the sample that came in since the last one, if
    /// any.
    pub fn page(
        &mut self,
        sample: Option<String>,
        address: Option<[u8; 4]>,
        shared: &Shared,
    ) -> (page: Page)
        ensures
            final(self).phase == old(self).phase,
            final(self).celsius == (if sample is Some {
                sample
            } else {
                old(self).celsius
            }),
            final(self).celsius == latest(sample, old(self).celsius),
            page.banner@ == "KC868-A6"@,
            page.address@ == address_line(address),
            page.relays@ == relay_line(shared.on_mask),
            written(temperature_line(as_text(final(self).celsius)), 32, page.temperature@),
            shows_temperature(as_text(final(self).celsius), page.temperature@),
            page.safety@ == safety_line(shared.locked),
            shows_state(*shared, page),
    {
        if sample.is_some() {
            self.celsius = sample;
        }
        let celsius: Option<&str> = match &self.celsius {
            Some(text) => Some(text.as_str()),
            None => None,
        };
        let temperature: String = temperature_text(celsius);
        Page {
            banner: "KC868-A6",
            address: address_text(address),
            relays: relay_text(shared.on_mask),
            temperature,
            safety: if shared.locked {
                "[!] SAFETY LOCK"
            } else {
                "OK"
            },
        }
    }
}

/// A display that fails is initialised again, whatever it failed at.
pub proof fn law_display_heals(phase: DisplayPhase, event: DisplayEvent)
    requires
        event == (DisplayEvent::Initialised { ok: false }) && phase == DisplayPhase::Init || event
            == (DisplayEvent::Flushed { ok: false }) && phase == DisplayPhase::Draw,
    ensures
        ({
            let failed = phase.next(event);
            failed == DisplayPhase::Init || failed.next(DisplayEvent::Waited) == DisplayPhase::Init
        }),
{
}

/// The relay line is `R:` and a mark for each of the six relays in turn: a hash
/// exactly if its bit is set in the mask, else a dot.
pub proof fn law_relay_line_shows_the_mask(mask: u8, relay: u8)
    requires
        relay < 6,
    ensures
        relay_line(mask).len() == 8,
        relay_line(mask)[0] == 'R',
        relay_line(mask)[1] == ':',
        relay_line(mask)[2 + relay] == '#' || relay_line(mask)[2 + relay] == '.',
        relay_line(mask)[2 + relay] == '#' <==> (mask >> relay) & 1 == 1,
{
    assert((mask & (1u8 << relay) != 0) == ((mask >> relay) & 1 == 1)) by (bit_vector)
        requires
            relay < 6,
    ;
    assert((2 + relay - 2) as u8 == relay);
}

/// The address line shows the four numbers in turn with dots between them, and
/// says so where there is no address.
pub proof fn law_address_line_text(octets: [u8; 4])
    ensures
        address_line(Some(octets)) == "IP: "@ + decimal_text(octets[0] as nat) + "."@
            + decimal_text(octets[1] as nat) + "."@ + decimal_text(octets[2] as nat) + "."@
            + decimal_text(octets[3] as nat),
        address_line(None) == "IP: (no link)"@,
{
    let pieces = seq![
        "IP: "@,
        decimal_text(octets[0] as nat),
        "."@,
        decimal_text(octets[1] as nat),
        "."@,
        decimal_text(octets[2] as nat),
        "."@,
        decimal_text(octets[3] as nat),
    ];
    lemma_joined_step(pieces, 0);
    assert(joined(pieces.take(1)) =~= pieces[0]);
    lemma_joined_step(pieces, 1);
    lemma_joined_step(pieces, 2);
    lemma_joined_step(pieces, 3);
    lemma_joined_step(pieces, 4);
    lemma_joined_step(pieces, 5);
    lemma_joined_step(pieces, 6);
    lemma_joined_step(pieces, 7);
}

/// A temperature that fits its line is shown as it came, with its unit, and the
/// last one stays until the next sample. The last line tells whether the
/// interlock is engaged.
pub proof fn law_lines_show_what_is_known(
    celsius: Seq<char>,
    sample: String,
    kept: Option<String>,
)
    ensures
        joined(temperature_line(Some(celsius))) == "T: "@ + celsius + " C"@,
        joined(temperature_line(None)) == "T: --.- C"@,
        latest(Some(sample), kept) == Some(sample),
        latest(None, kept) == kept,
        as_text(Some(sample)) == Some(sample@),
        as_text(None) is None,
        safety_line(true) == "[!] SAFETY LOCK"@,
        safety_line(false) == "OK"@,
{
    let pieces = temperature_line(Some(celsius));
    lemma_joined_step(pieces, 0);
    assert(joined(pieces.take(1)) =~= pieces[0]);
    lemma_joined_step(pieces, 1);
    lemma_joined_step(pieces, 2);
    let pieces = temperature_line(None);
    lemma_joined_step(pieces, 0);
    assert(joined(pieces.take(1)) =~= pieces[0]);
}

/// The display is initialised, then drawn every half second for as long as that
/// goes well; one that could not be initialised is tried again after five
/// seconds, and one that was lost at once.
pub proof fn law_pages_are_drawn_in_turn(phase: DisplayPhase, event: DisplayEvent)
    ensures
        DisplayPhase::Init.to_do() == DisplayAction::Init,
        DisplayPhase::Init.next(DisplayEvent::Initialised { ok: true }).to_do()
            == DisplayAction::Draw,
        DisplayPhase::Draw.next(DisplayEvent::Flushed { ok: true }).to_do() == (
        DisplayAction::Wait { ms: 500 }),
        DisplayPhase::Draw.next(DisplayEvent::Flushed { ok: true }).next(
            DisplayEvent::Waited,
        ).to_do() == DisplayAction::Draw,
        DisplayPhase::Init.next(DisplayEvent::Initialised { ok: false }).to_do() == (
        DisplayAction::Wait { ms: 5_000 }),
        DisplayPhase::Init.next(DisplayEvent::Initialised { ok: false }).next(
            DisplayEvent::Waited,
        ).to_do() == DisplayAction::Init,
        DisplayPhase::Draw.next(DisplayEvent::Flushed { ok: false }).to_do()
            == DisplayAction::Init,
        (event is Initialised && phase != DisplayPhase::Init) || (event is Flushed && phase
            != DisplayPhase::Draw) || (event == DisplayEvent::Waited && phase
            != DisplayPhase::InitRetry && phase != DisplayPhase::Refresh) ==> phase.next(event)
            == phase,
{
}

/// A temperature of up to 27 bytes is shown whole, with its unit.
pub proof fn law_temperature_is_shown_whole(celsius: Seq<char>, line: Seq<char>)
    requires
        byte_len(celsius) <= 27,
        shows_temperature(Some(celsius), line),
    ensures
        line == "T: "@ + celsius + " C"@,
{
    reveal_strlit("T: ");
    reveal_strlit(" C");
    is_ascii_chars_encode_utf8("T: "@);
    is_ascii_chars_encode_utf8(" C"@);
    let pieces = temperature_line(Some(celsius));
    lemma_joined_len(pieces);
    reveal_with_fuel(total_len, 4);
    lemma_joined_step(pieces, 0);
    assert(joined(pieces.take(1)) =~= pieces[0]);
    lemma_joined_step(pieces, 1);
    lemma_joined_step(pieces, 2);
}

/// A page shows a hash for every relay that is on and a dot for every other,
/// and whether the interlock is engaged, neither one depending on the other.
pub proof fn law_page_shows_the_state(shared: Shared, page: Page, relay: u8)
    requires
        shows_state(shared, page),
        relay < 6,
    ensures
        page.relays@.len() == 8,
        page.relays@[2 + relay] == '#' <==> (shared.on_mask >> relay) & 1 == 1,
        shared.locked ==> page.safety@ == "[!] SAFETY LOCK"@,
        !shared.locked ==> page.safety@ == "OK"@,
{
    law_relay_line_shows_the_mask(shared.on_mask, relay);
}

} // verus!

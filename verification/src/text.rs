//! Text on bytes: the searching, splitting and number reading that the MQTT
//! and HTTP front ends need.
//!
//! The separators are all ASCII, so on UTF-8 text these functions cut between
//! characters only.

use vstd::prelude::*;
use vstd::slice::slice_subrange;

verus! {

/// `text` begins with `prefix`.
pub open spec fn begins_with(text: Seq<u8>, prefix: Seq<u8>) -> bool {
    prefix.len() <= text.len() && text.take(prefix.len() as int) == prefix
}

/// `text` ends with `suffix`.
pub open spec fn ends_with(text: Seq<u8>, suffix: Seq<u8>) -> bool {
    suffix.len() <= text.len() && text.skip(text.len() - suffix.len()) == suffix
}

/// `needle` occurs in `text` at `at`.
pub open spec fn occurs_at(text: Seq<u8>, needle: Seq<u8>, at: int) -> bool {
    0 <= at && at + needle.len() <= text.len() && text.subrange(at, at + needle.len()) == needle
}

/// `needle` occurs somewhere in `text`.
pub open spec fn occurs(text: Seq<u8>, needle: Seq<u8>) -> bool {
    exists|at: int| occurs_at(text, needle, at)
}

pub fn bytes_eq(a: &[u8], b: &[u8]) -> (equal: bool)
    ensures
        equal == (a@ == b@),
{
    if a.len() != b.len() {
        return false;
    }
    let mut i: usize = 0;
    while i < a.len()
        invariant
            i <= a@.len(),
            a@.len() == b@.len(),
            forall|j: int| 0 <= j < i ==> a@[j] == b@[j],
        decreases a@.len() - i,
    {
        if a[i] != b[i] {
            return false;
        }
        i = i + 1;
    }
    assert(a@ =~= b@);
    true
}

/// `text` without `prefix`, if it begins with it.
pub fn strip_prefix<'a>(text: &'a [u8], prefix: &[u8]) -> (rest: Option<&'a [u8]>)
    ensures
        match rest {
            None => !begins_with(text@, prefix@),
            Some(r) => begins_with(text@, prefix@) && r@ == text@.skip(prefix@.len() as int),
        },
{
    if prefix.len() > text.len() {
        return None;
    }
    let head = slice_subrange(text, 0, prefix.len());
    assert(head@ =~= text@.take(prefix@.len() as int));
    if bytes_eq(head, prefix) {
        let rest = slice_subrange(text, prefix.len(), text.len());
        assert(rest@ =~= text@.skip(prefix@.len() as int));
        Some(rest)
    } else {
        None
    }
}

/// `text` without `suffix`, if it ends with it.
pub fn strip_suffix<'a>(text: &'a [u8], suffix: &[u8]) -> (rest: Option<&'a [u8]>)
    ensures
        match rest {
            None => !ends_with(text@, suffix@),
            Some(r) => ends_with(text@, suffix@) && r@ == text@.take(text@.len() - suffix@.len()),
        },
{
    if suffix.len() > text.len() {
        return None;
    }
    let at: usize = text.len() - suffix.len();
    let tail = slice_subrange(text, at, text.len());
    assert(tail@ =~= text@.skip(at as int));
    if bytes_eq(tail, suffix) {
        let rest = slice_subrange(text, 0, at);
        assert(rest@ =~= text@.take(at as int));
        Some(rest)
    } else {
        None
    }
}

/// `text` without any `byte` in front.
pub open spec fn without_leading(text: Seq<u8>, byte: u8) -> Seq<u8>
    decreases text.len(),
{
    if text.len() > 0 && text[0] == byte {
        without_leading(text.drop_first(), byte)
    } else {
        text
    }
}

pub fn trim_start_byte(text: &[u8], byte: u8) -> (rest: &[u8])
    ensures
        rest@ == without_leading(text@, byte),
{
    let mut at: usize = 0;
    assert(text@.skip(0) =~= text@);
    while at < text.len() && text[at] == byte
        invariant
            at <= text@.len(),
            without_leading(text@.skip(at as int), byte) == without_leading(text@, byte),
        decreases text@.len() - at,
    {
        assert(text@.skip(at as int).drop_first() =~= text@.skip(at + 1));
        at = at + 1;
    }
    let rest = slice_subrange(text, at, text.len());
    assert(rest@ =~= text@.skip(at as int));
    rest
}

/// `text` without any `prefix` in front, however often it stands there.
pub open spec fn without_prefixes(text: Seq<u8>, prefix: Seq<u8>) -> Seq<u8>
    decreases text.len(),
{
    if prefix.len() > 0 && begins_with(text, prefix) {
        without_prefixes(text.skip(prefix.len() as int), prefix)
    } else {
        text
    }
}

pub fn trim_start_matches<'a>(text: &'a [u8], prefix: &[u8]) -> (rest: &'a [u8])
    requires
        prefix@.len() > 0,
    ensures
        rest@ == without_prefixes(text@, prefix@),
{
    let mut rest: &'a [u8] = text;
    loop
        invariant
            prefix@.len() > 0,
            without_prefixes(rest@, prefix@) == without_prefixes(text@, prefix@),
        ensures
            rest@ == without_prefixes(text@, prefix@),
        decreases rest@.len(),
    {
        match strip_prefix(rest, prefix) {
            Some(shorter) => {
                rest = shorter;
            },
            None => {
                break;
            },
        }
    }
    rest
}

/// Position of the first `byte` in `text`, its length if there is none.
pub open spec fn first_of(text: Seq<u8>, byte: u8) -> int
    decreases text.len(),
{
    if text.len() == 0 || text[0] == byte {
        0
    } else {
        1 + first_of(text.drop_first(), byte)
    }
}

pub proof fn lemma_first_of(text: Seq<u8>, byte: u8)
    ensures
        0 <= first_of(text, byte) <= text.len(),
        forall|i: int| 0 <= i < first_of(text, byte) ==> text[i] != byte,
        first_of(text, byte) < text.len() ==> text[first_of(text, byte)] == byte,
    decreases text.len(),
{
    if text.len() > 0 && text[0] != byte {
        let rest = text.drop_first();
        lemma_first_of(rest, byte);
        assert forall|i: int| 0 <= i < first_of(text, byte) implies text[i] != byte by {
            if i > 0 {
                assert(rest[i - 1] == text[i]);
            }
        }
    }
}

pub fn find_byte(text: &[u8], byte: u8) -> (at: usize)
    ensures
        at == first_of(text@, byte),
        at <= text@.len(),
{
    let mut at: usize = 0;
    assert(text@.skip(0) =~= text@);
    while at < text.len()
        invariant
            at <= text@.len(),
            first_of(text@, byte) == at + first_of(text@.skip(at as int), byte),
        decreases text@.len() - at,
    {
        if text[at] == byte {
            return at;
        }
        assert(text@.skip(at as int).drop_first() =~= text@.skip(at + 1));
        at = at + 1;
    }
    at
}

/// The pieces of `text` between the separators.
pub open spec fn split(text: Seq<u8>, separator: u8) -> Seq<Seq<u8>>
    decreases text.len(),
{
    proof {
        lemma_first_of(text, separator);
    }
    let at = first_of(text, separator);
    if at == text.len() {
        seq![text]
    } else {
        seq![text.take(at)] + split(text.skip(at + 1), separator)
    }
}

/// The piece in front of the first separator, and what follows it if there is
/// one.
pub fn split_first(text: &[u8], separator: u8) -> (parts: (&[u8], Option<&[u8]>))
    ensures
        parts.0@ == text@.take(first_of(text@, separator)),
        match parts.1 {
            None => first_of(text@, separator) == text@.len(),
            Some(rest) => {
                &&& first_of(text@, separator) < text@.len()
                &&& rest@ == text@.skip(first_of(text@, separator) + 1)
            },
        },
{
    let at: usize = find_byte(text, separator);
    let head = slice_subrange(text, 0, at);
    assert(head@ =~= text@.take(at as int));
    if at < text.len() {
        let rest = slice_subrange(text, at + 1, text.len());
        assert(rest@ =~= text@.skip(at + 1));
        (head, Some(rest))
    } else {
        (head, None)
    }
}

/// Whether `needle` occurs in `text`.
pub fn contains(text: &[u8], needle: &[u8]) -> (found: bool)
    ensures
        found == occurs(text@, needle@),
{
    if needle.len() > text.len() {
        return false;
    }
    let last: usize = text.len() - needle.len();
    let mut at: usize = 0;
    loop
        invariant
            at <= last,
            last + needle@.len() == text@.len(),
            text@.len() <= usize::MAX,
            forall|i: int| 0 <= i < at ==> !occurs_at(text@, needle@, i),
        decreases last - at,
    {
        let window = slice_subrange(text, at, at + needle.len());
        assert(window@ =~= text@.subrange(at as int, at + needle@.len()));
        if bytes_eq(window, needle) {
            assert(occurs_at(text@, needle@, at as int));
            return true;
        }
        if at == last {
            return false;
        }
        at = at + 1;
    }
}

/// `byte` is a decimal digit.
pub open spec fn is_digit(byte: u8) -> bool {
    0x30 <= byte <= 0x39
}

/// The number that decimal digits stand for.
pub open spec fn value_of(digits: Seq<u8>) -> nat
    decreases digits.len(),
{
    if digits.len() == 0 {
        0
    } else {
        10 * value_of(digits.drop_last()) + (digits.last() - 0x30) as nat
    }
}

/// `text` without a plus sign in front.
pub open spec fn without_plus(text: Seq<u8>) -> Seq<u8> {
    if text.len() > 0 && text[0] == 0x2B {
        text.drop_first()
    } else {
        text
    }
}

/// The unsigned decimal number that `text` is: an optional plus sign and at
/// least one digit, not beyond `max`.
pub open spec fn unsigned(text: Seq<u8>, max: nat) -> Option<nat> {
    let digits = without_plus(text);
    if digits.len() > 0 && (forall|i: int| 0 <= i < digits.len() ==> is_digit(digits[i]))
        && value_of(digits) <= max {
        Some(value_of(digits))
    } else {
        None
    }
}

proof fn lemma_value_grows(digits: Seq<u8>, at: int)
    requires
        0 <= at <= digits.len(),
        forall|i: int| 0 <= i < digits.len() ==> is_digit(digits[i]),
    ensures
        value_of(digits.take(at)) <= value_of(digits),
    decreases digits.len() - at,
{
    if at == digits.len() {
        assert(digits.take(at) =~= digits);
    } else {
        assert(digits.take(at + 1).drop_last() =~= digits.take(at));
        lemma_value_grows(digits, at + 1);
    }
}

/// The unsigned decimal number that `text` is, if it does not exceed `max`.
pub fn parse_unsigned(text: &[u8], max: u32) -> (number: Option<u32>)
    ensures
        match number {
            None => unsigned(text@, max as nat) is None,
            Some(n) => unsigned(text@, max as nat) == Some(n as nat),
        },
{
    let signed = text.len() > 0 && text[0] == 0x2B;
    let digits: &[u8] = if signed {
        slice_subrange(text, 1, text.len())
    } else {
        text
    };
    assert(digits@ =~= without_plus(text@));
    if digits.len() == 0 {
        return None;
    }
    let mut value: u64 = 0;
    let mut at: usize = 0;
    while at < digits.len()
        invariant
            digits@ == without_plus(text@),
            at <= digits@.len(),
            forall|i: int| 0 <= i < at ==> is_digit(digits@[i]),
            value == value_of(digits@.take(at as int)),
            value <= max,
        decreases digits@.len() - at,
    {
        let digit: u8 = digits[at];
        if digit < 0x30 || digit > 0x39 {
            return None;
        }
        assert(digits@.take(at + 1).drop_last() =~= digits@.take(at as int));
        value = 10 * value + (digit - 0x30) as u64;
        at = at + 1;
        if value > max as u64 {
            proof {
                if forall|i: int| 0 <= i < digits@.len() ==> is_digit(digits@[i]) {
                    lemma_value_grows(digits@, at as int);
                }
            }
            return None;
        }
    }
    assert(digits@.take(at as int) =~= digits@);
    Some(value as u32)
}

/// The unsigned decimal number that `text` is, if it fits 8 bits.
pub fn parse_u8(text: &[u8]) -> (number: Option<u8>)
    ensures
        match number {
            None => unsigned(text@, 0xFF) is None,
            Some(n) => unsigned(text@, 0xFF) == Some(n as nat),
        },
{
    match parse_unsigned(text, 0xFF) {
        None => None,
        Some(n) => Some(n as u8),
    }
}

/// The first separator behind a piece that holds none stands right behind it.
pub proof fn lemma_first_behind(piece: Seq<u8>, byte: u8, rest: Seq<u8>)
    requires
        !piece.contains(byte),
    ensures
        first_of(piece + seq![byte] + rest, byte) == piece.len(),
        (piece + seq![byte] + rest).take(piece.len() as int) == piece,
        (piece + seq![byte] + rest).skip(piece.len() + 1int) == rest,
{
    let text = piece + seq![byte] + rest;
    lemma_first_of(text, byte);
    let at = first_of(text, byte);
    assert(text[piece.len() as int] == byte);
    if at < piece.len() {
        assert(text[at] == piece[at]);
        assert(piece.contains(piece[at]));
    }
    assert(text.take(piece.len() as int) =~= piece);
    assert(text.skip(piece.len() + 1int) =~= rest);
}

/// Pieces that hold no separator come back from the text that they make up with
/// a separator between each two.
pub proof fn law_split_undoes_joining(piece: Seq<u8>, separator: u8, rest: Seq<u8>)
    requires
        !piece.contains(separator),
    ensures
        split(piece, separator) == seq![piece],
        split(piece + seq![separator] + rest, separator) == seq![piece] + split(rest, separator),
{
    lemma_first_of(piece, separator);
    if first_of(piece, separator) < piece.len() {
        assert(piece.contains(piece[first_of(piece, separator)]));
    }
    lemma_first_behind(piece, separator, rest);
}

/// A text is read as a number only if it is digits, at least one, with a plus
/// sign in front or not; a number beyond the limit is not read.
pub proof fn law_only_digits_are_read(text: Seq<u8>, max: nat, at: int)
    requires
        0 <= at < text.len(),
        !(0x30 <= text[at] <= 0x39),
        at > 0 || text[at] != 0x2B,
    ensures
        unsigned(text, max) is None,
        unsigned(Seq::empty(), max) is None,
        unsigned(seq![0x2Bu8], max) is None,
{
    let digits = without_plus(text);
    if text[0] == 0x2B {
        assert(digits[at - 1] == text[at]);
    }
    assert(without_plus(seq![0x2Bu8]) =~= Seq::<u8>::empty());
}

/// What is stripped from the front of a text is whole prefixes, and none is
/// left.
pub proof fn law_prefixes_are_stripped(prefix: Seq<u8>, rest: Seq<u8>)
    requires
        prefix.len() > 0,
    ensures
        without_prefixes(prefix + rest, prefix) == without_prefixes(rest, prefix),
        !begins_with(rest, prefix) ==> without_prefixes(prefix + rest, prefix) == rest,
{
    assert((prefix + rest).take(prefix.len() as int) =~= prefix);
    assert((prefix + rest).skip(prefix.len() as int) =~= rest);
}

/// A text occurs wherever it stands: whatever is in front of it and behind it.
pub proof fn law_occurs_wherever_it_stands(front: Seq<u8>, needle: Seq<u8>, back: Seq<u8>)
    ensures
        occurs(front + needle + back, needle),
        begins_with(needle + back, needle),
        ends_with(front + needle, needle),
{
    let text = front + needle + back;
    let at = front.len() as int;
    assert(text.subrange(at, at + needle.len()) =~= needle);
    assert(occurs_at(text, needle, at));
    assert((needle + back).take(needle.len() as int) =~= needle);
    assert((front + needle).skip(front.len() as int) =~= needle);
}

/// A text that occurs stands somewhere: what is around it makes up the whole
/// with it.
pub proof fn law_what_occurs_stands_somewhere(text: Seq<u8>, needle: Seq<u8>)
    ensures
        occurs(text, needle) ==> exists|front: Seq<u8>, back: Seq<u8>|
            text == #[trigger] (front + needle + back),
        begins_with(text, needle) ==> text == needle + text.skip(needle.len() as int),
        ends_with(text, needle) ==> text == text.take(text.len() - needle.len()) + needle,
{
    if occurs(text, needle) {
        let at = choose|at: int| occurs_at(text, needle, at);
        let front = text.take(at);
        let back = text.skip(at + needle.len());
        assert(text =~= front + text.subrange(at, at + needle.len()) + back);
        assert(text == front + needle + back);
    }
    if begins_with(text, needle) {
        assert(text =~= text.take(needle.len() as int) + text.skip(needle.len() as int));
    }
    if ends_with(text, needle) {
        let at = text.len() - needle.len();
        assert(text =~= text.take(at) + text.skip(at));
    }
}

/// Bytes in front are left out as long as they are the one that is stripped, and
/// from the first other one on the text stays as it is.
pub proof fn law_leading_bytes_are_stripped(count: nat, byte: u8, rest: Seq<u8>)
    requires
        rest.len() == 0 || rest[0] != byte,
    ensures
        without_leading(Seq::new(count, |i: int| byte) + rest, byte) == rest,
    decreases count,
{
    let text = Seq::new(count, |i: int| byte) + rest;
    if count == 0 {
        assert(text =~= rest);
    } else {
        let fewer = (count - 1) as nat;
        assert(text.drop_first() =~= Seq::new(fewer, |i: int| byte) + rest);
        law_leading_bytes_are_stripped(fewer, byte, rest);
    }
}

/// A plus sign in front of a number does not matter, nor do zeros.
pub proof fn law_sign_and_zeros_do_not_matter(digits: Seq<u8>, max: nat)
    requires
        digits.len() > 0,
        digits[0] != 0x2B,
    ensures
        unsigned(seq![0x2Bu8] + digits, max) == unsigned(digits, max),
        unsigned(seq![0x30u8] + digits, max) == unsigned(digits, max),
{
    assert((seq![0x2Bu8] + digits).drop_first() =~= digits);
    let zero = seq![0x30u8] + digits;
    lemma_leading_zero(digits);
    if forall|i: int| 0 <= i < digits.len() ==> is_digit(digits[i]) {
        assert forall|i: int| 0 <= i < zero.len() implies is_digit(zero[i]) by {
            if i > 0 {
                assert(zero[i] == digits[i - 1]);
            }
        }
    } else {
        let i = choose|i: int| 0 <= i < digits.len() && !is_digit(digits[i]);
        assert(zero[i + 1] == digits[i]);
    }
}

proof fn lemma_leading_zero(digits: Seq<u8>)
    ensures
        value_of(seq![0x30u8] + digits) == value_of(digits),
    decreases digits.len(),
{
    let zero = seq![0x30u8] + digits;
    if digits.len() == 0 {
        assert(zero.drop_last() =~= Seq::<u8>::empty());
        reveal_with_fuel(value_of, 2);
    } else {
        assert(zero.drop_last() =~= seq![0x30u8] + digits.drop_last());
        lemma_leading_zero(digits.drop_last());
    }
}

} // verus!

//! The head of an HTTP request: request line and header fields.

use vstd::prelude::*;
use vstd::slice::slice_subrange;
use vstd::utf8::{
    encode_utf8, encode_utf8_valid_utf8, is_ascii_chars, is_ascii_chars_encode_utf8, valid_utf8,
};

use crate::text::{
    begins_with, find_byte, first_of, law_split_undoes_joining, lemma_first_behind, lemma_first_of,
    occurs, occurs_at, parse_unsigned, split, split_first, unsigned,
};

verus! {

/// The empty line that ends the head.
pub const HEAD_END: [u8; 4] = [0x0D, 0x0A, 0x0D, 0x0A];

pub const LINE_FEED: u8 = 0x0A;

pub const CARRIAGE_RETURN: u8 = 0x0D;

pub const SPACE: u8 = 0x20;

pub const COLON: u8 = 0x3A;

/// Where `needle` first stands in `text`.
pub open spec fn position(text: Seq<u8>, needle: Seq<u8>) -> Option<int>
    decreases text.len(),
{
    if begins_with(text, needle) {
        Some(0)
    } else if text.len() == 0 {
        None
    } else {
        match position(text.drop_first(), needle) {
            None => None,
            Some(at) => Some(at + 1),
        }
    }
}

/// Length of the head of a request, with the empty line that ends it.
pub open spec fn head_len(request: Seq<u8>) -> Option<int> {
    match position(request, HEAD_END@) {
        None => None,
        Some(at) => Some(at + 4),
    }
}

proof fn lemma_position_bound(text: Seq<u8>, needle: Seq<u8>)
    ensures
        position(text, needle) matches Some(at) ==> 0 <= at && at + needle.len() <= text.len(),
    decreases text.len(),
{
    if !begins_with(text, needle) && text.len() > 0 {
        lemma_position_bound(text.drop_first(), needle);
    }
}

/// The head ends with the first empty line, and is complete exactly if there
/// is one.
pub proof fn law_head_ends_at_the_first_empty_line(request: Seq<u8>)
    ensures
        match head_len(request) {
            Some(end) => {
                &&& occurs_at(request, HEAD_END@, end - 4)
                &&& forall|at: int| #[trigger] occurs_at(request, HEAD_END@, at) ==> end - 4 <= at
            },
            None => !occurs(request, HEAD_END@),
        },
    decreases request.len(),
{
    assert forall|at: int| #[trigger] occurs_at(request, HEAD_END@, at) implies at == 0
        || occurs_at(request.drop_first(), HEAD_END@, at - 1) by {
        if at > 0 {
            assert(request.drop_first().subrange(at - 1, at + 3) =~= request.subrange(at, at + 4));
        }
    }
    if begins_with(request, HEAD_END@) {
        assert(request.subrange(0, 4) =~= request.take(4));
        assert(occurs_at(request, HEAD_END@, 0));
    } else if request.len() > 0 {
        let rest = request.drop_first();
        law_head_ends_at_the_first_empty_line(rest);
        if occurs_at(request, HEAD_END@, 0) {
            assert(request.subrange(0, 4) =~= request.take(4));
        }
        if let Some(at) = position(rest, HEAD_END@) {
            lemma_position_bound(rest, HEAD_END@);
            assert(rest.subrange(at, at + 4) =~= request.subrange(at + 1, at + 5));
        }
    }
}

/// Index just past the empty line that ends the head; `None` if the head is
/// not complete.
pub fn headers_end(buf: &[u8]) -> (end: Option<usize>)
    ensures
        match end {
            None => head_len(buf@) is None,
            Some(at) => head_len(buf@) == Some(at as int) && 4 <= at <= buf@.len(),
        },
{
    proof {
        lemma_position_bound(buf@, HEAD_END@);
    }
    let mut at: usize = 0;
    assert(buf@.skip(0) =~= buf@);
    while at < buf.len()
        invariant
            at <= buf@.len(),
            match position(buf@.skip(at as int), HEAD_END@) {
                None => position(buf@, HEAD_END@) is None,
                Some(further) => position(buf@, HEAD_END@) == Some(at + further),
            },
        decreases buf@.len() - at,
    {
        let ghost rest = buf@.skip(at as int);
        if buf.len() - at >= 4 && buf[at] == 0x0D && buf[at + 1] == 0x0A && buf[at + 2] == 0x0D
            && buf[at + 3] == 0x0A {
            assert(rest.take(4) =~= HEAD_END@);
            return Some(at + 4);
        }
        proof {
            if begins_with(rest, HEAD_END@) {
                assert(rest.take(4)[0] == 0x0D && rest.take(4)[1] == 0x0A && rest.take(4)[2]
                    == 0x0D && rest.take(4)[3] == 0x0A);
                assert(false);
            }
            assert(rest.drop_first() =~= buf@.skip(at + 1));
        }
        at = at + 1;
    }
    None
}

/// Calls `core::str::from_utf8`, which succeeds exactly on bytes that are valid
/// UTF-8.
#[verifier::external_body]
pub(crate) fn is_utf8(bytes: &[u8]) -> (valid: bool)
    ensures
        valid == valid_utf8(bytes@),
{
    match core::str::from_utf8(bytes) {
        Ok(_) => true,
        Err(_) => false,
    }
}

/// A line without the carriage return that ends it.
pub open spec fn without_return(line: Seq<u8>) -> Seq<u8> {
    if line.len() > 0 && line.last() == CARRIAGE_RETURN {
        line.drop_last()
    } else {
        line
    }
}

/// The lines of a text. The last one may lack its line feed.
pub open spec fn lines(text: Seq<u8>) -> Seq<Seq<u8>>
    decreases text.len(),
{
    proof {
        lemma_first_of(text, LINE_FEED);
    }
    let at = first_of(text, LINE_FEED);
    if text.len() == 0 {
        Seq::empty()
    } else if at == text.len() {
        seq![text]
    } else {
        seq![without_return(text.take(at))] + lines(text.skip(at + 1))
    }
}

/// The first line of a text, and what follows it.
pub fn next_line(text: &[u8]) -> (parts: (&[u8], &[u8]))
    requires
        text@.len() > 0,
    ensures
        lines(text@) == seq![parts.0@] + lines(parts.1@),
        parts.1@.len() < text@.len(),
{
    proof {
        lemma_first_of(text@, LINE_FEED);
    }
    let at: usize = find_byte(text, LINE_FEED);
    if at == text.len() {
        let rest = slice_subrange(text, at, at);
        assert(rest@ =~= Seq::<u8>::empty());
        assert(lines(text@) =~= seq![text@] + lines(rest@));
        return (text, rest);
    }
    let rest = slice_subrange(text, at + 1, text.len());
    assert(rest@ =~= text@.skip(at + 1));
    let end: usize = if at > 0 && text[at - 1] == CARRIAGE_RETURN {
        at - 1
    } else {
        at
    };
    let line = slice_subrange(text, 0, end);
    assert(line@ =~= without_return(text@.take(at as int)));
    (line, rest)
}

/// White space of one, two and three bytes in UTF-8.
pub open spec fn space1(a: u8) -> bool {
    0x09 <= a <= 0x0D || a == 0x20
}

pub open spec fn space2(a: u8, b: u8) -> bool {
    a == 0xC2 && (b == 0x85 || b == 0xA0)
}

pub open spec fn space3(a: u8, b: u8, c: u8) -> bool {
    ||| a == 0xE1 && b == 0x9A && c == 0x80
    ||| a == 0xE2 && b == 0x80 && (0x80 <= c <= 0x8A || c == 0xA8 || c == 0xA9 || c == 0xAF)
    ||| a == 0xE2 && b == 0x81 && c == 0x9F
    ||| a == 0xE3 && b == 0x80 && c == 0x80
}

/// Length of the white space character in front of a text, 0 if there is none.
pub open spec fn space_in_front(text: Seq<u8>) -> int {
    if text.len() >= 1 && space1(text[0]) {
        1
    } else if text.len() >= 2 && space2(text[0], text[1]) {
        2
    } else if text.len() >= 3 && space3(text[0], text[1], text[2]) {
        3
    } else {
        0
    }
}

/// Length of the white space character at the end of a text, 0 if there is
/// none.
pub open spec fn space_at_end(text: Seq<u8>) -> int {
    let n = text.len() as int;
    if n >= 1 && space1(text[n - 1]) {
        1
    } else if n >= 2 && space2(text[n - 2], text[n - 1]) {
        2
    } else if n >= 3 && space3(text[n - 3], text[n - 2], text[n - 1]) {
        3
    } else {
        0
    }
}

pub open spec fn trimmed_front(text: Seq<u8>) -> Seq<u8>
    decreases text.len(),
{
    if space_in_front(text) > 0 {
        trimmed_front(text.skip(space_in_front(text)))
    } else {
        text
    }
}

pub open spec fn trimmed_end(text: Seq<u8>) -> Seq<u8>
    decreases text.len(),
{
    if space_at_end(text) > 0 {
        trimmed_end(text.take(text.len() - space_at_end(text)))
    } else {
        text
    }
}

/// A text without white space on either side.
pub open spec fn trimmed(text: Seq<u8>) -> Seq<u8> {
    trimmed_end(trimmed_front(text))
}

fn is_space1(a: u8) -> (space: bool)
    ensures
        space == space1(a),
{
    (0x09 <= a && a <= 0x0D) || a == 0x20
}

fn is_space2(a: u8, b: u8) -> (space: bool)
    ensures
        space == space2(a, b),
{
    a == 0xC2 && (b == 0x85 || b == 0xA0)
}

fn is_space3(a: u8, b: u8, c: u8) -> (space: bool)
    ensures
        space == space3(a, b, c),
{
    (a == 0xE1 && b == 0x9A && c == 0x80) || (a == 0xE2 && b == 0x80 && ((0x80 <= c && c <= 0x8A)
        || c == 0xA8 || c == 0xA9 || c == 0xAF)) || (a == 0xE2 && b == 0x81 && c == 0x9F) || (a
        == 0xE3 && b == 0x80 && c == 0x80)
}

/// A text without white space on either side.
pub fn trim(text: &[u8]) -> (rest: &[u8])
    ensures
        rest@ == trimmed(text@),
{
    let mut from: usize = 0;
    let mut looking = true;
    assert(text@.skip(0) =~= text@);
    while looking
        invariant
            from <= text@.len(),
            trimmed_front(text@.skip(from as int)) == trimmed_front(text@),
            !looking ==> text@.skip(from as int) == trimmed_front(text@),
        decreases text@.len() - from, if looking { 1int } else { 0 },
    {
        let n: usize = text.len() - from;
        let ghost front = text@.skip(from as int);
        let skip: usize = if n >= 1 && is_space1(text[from]) {
            1
        } else if n >= 2 && is_space2(text[from], text[from + 1]) {
            2
        } else if n >= 3 && is_space3(text[from], text[from + 1], text[from + 2]) {
            3
        } else {
            0
        };
        assert(skip == space_in_front(front));
        if skip == 0 {
            looking = false;
        } else {
            assert(front.skip(skip as int) =~= text@.skip(from + skip));
            from = from + skip;
        }
    }
    let ghost front = text@.skip(from as int);
    let mut to: usize = text.len();
    looking = true;
    assert(front.take(front.len() as int) =~= front);
    while looking
        invariant
            from <= to <= text@.len(),
            front == text@.skip(from as int),
            trimmed_end(front.take(to - from)) == trimmed_end(front),
            !looking ==> front.take(to - from) == trimmed_end(front),
        decreases to - from, if looking { 1int } else { 0 },
    {
        let n: usize = to - from;
        let ghost part = front.take(n as int);
        let drop: usize = if n >= 1 && is_space1(text[to - 1]) {
            1
        } else if n >= 2 && is_space2(text[to - 2], text[to - 1]) {
            2
        } else if n >= 3 && is_space3(text[to - 3], text[to - 2], text[to - 1]) {
            3
        } else {
            0
        };
        assert(drop == space_at_end(part));
        if drop == 0 {
            looking = false;
        } else {
            assert(part.take(n - drop) =~= front.take(n - drop));
            to = to - drop;
        }
    }
    let rest = slice_subrange(text, from, to);
    assert(rest@ =~= front.take(to - from));
    rest
}

/// An ASCII letter in lower case, any other byte as it is.
pub open spec fn lower(byte: u8) -> u8 {
    if 0x41 <= byte <= 0x5A {
        (byte + 0x20) as u8
    } else {
        byte
    }
}

/// Two names that differ at most in the case of ASCII letters.
pub open spec fn same_name(a: Seq<u8>, b: Seq<u8>) -> bool {
    a.len() == b.len() && forall|i: int| 0 <= i < a.len() ==> lower(a[i]) == lower(b[i])
}

fn to_lower(byte: u8) -> (low: u8)
    ensures
        low == lower(byte),
{
    if 0x41 <= byte && byte <= 0x5A {
        byte + 0x20
    } else {
        byte
    }
}

pub fn eq_ignore_ascii_case(a: &[u8], b: &[u8]) -> (same: bool)
    ensures
        same == same_name(a@, b@),
{
    if a.len() != b.len() {
        return false;
    }
    let mut i: usize = 0;
    while i < a.len()
        invariant
            i <= a@.len(),
            a@.len() == b@.len(),
            forall|j: int| 0 <= j < i ==> lower(a@[j]) == lower(b@[j]),
        decreases a@.len() - i,
    {
        if to_lower(a[i]) != to_lower(b[i]) {
            return false;
        }
        i = i + 1;
    }
    true
}

/// A header line that gives the field `name`.
pub open spec fn is_field(line: Seq<u8>, name: Seq<u8>) -> bool {
    let at = first_of(line, COLON);
    at < line.len() && same_name(trimmed(line.take(at)), name)
}

/// The number that a header line gives, 0 if it gives none.
pub open spec fn line_number(line: Seq<u8>) -> u32 {
    match unsigned(trimmed(line.skip(first_of(line, COLON) + 1)), 0xFFFF_FFFF) {
        Some(n) => n as u32,
        None => 0,
    }
}

/// The number that the last header line for `name` gives, 0 if there is none.
pub open spec fn field_number(headers: Seq<Seq<u8>>, name: Seq<u8>) -> u32
    decreases headers.len(),
{
    if headers.len() == 0 {
        0
    } else if is_field(headers.last(), name) {
        line_number(headers.last())
    } else {
        field_number(headers.drop_last(), name)
    }
}

/// The number that `line` gives for the field `name`.
fn field_of(line: &[u8], name: &[u8]) -> (number: Option<u32>)
    ensures
        match number {
            None => !is_field(line@, name@),
            Some(n) => is_field(line@, name@) && n == line_number(line@),
        },
{
    let (field, rest) = split_first(line, COLON);
    match rest {
        None => None,
        Some(value) => if eq_ignore_ascii_case(trim(field), name) {
            match parse_unsigned(trim(value), 0xFFFF_FFFF) {
                Some(n) => Some(n),
                None => Some(0),
            }
        } else {
            None
        },
    }
}

/// The number that the header lines after the first line of `head` give for the
/// field `name`.
pub fn header_number(head: &[u8], name: &[u8]) -> (number: u32)
    requires
        head@.len() > 0,
    ensures
        number == field_number(lines(head@).drop_first(), name@),
{
    let (first, after) = next_line(head);
    assert(lines(head@).drop_first() =~= lines(after@));
    let mut rest: &[u8] = after;
    let ghost mut done: Seq<Seq<u8>> = Seq::empty();
    let mut number: u32 = 0;
    assert(done + lines(after@) =~= lines(after@));
    while rest.len() > 0
        invariant
            lines(after@) == done + lines(rest@),
            number == field_number(done, name@),
        decreases rest@.len(),
    {
        let (line, further) = next_line(rest);
        let ghost next = done.push(line@);
        proof {
            assert(done + (seq![line@] + lines(further@)) =~= next + lines(further@));
            assert(next.drop_last() =~= done);
        }
        match field_of(line, name) {
            Some(n) => {
                number = n;
            },
            None => {},
        }
        rest = further;
        proof {
            done = next;
        }
    }
    assert(lines(rest@) =~= Seq::empty());
    assert(done + lines(rest@) =~= done);
    number
}

/// Method of a request line: what stands in front of the first space.
pub open spec fn method_of(line: Seq<u8>) -> Seq<u8> {
    split(line, SPACE)[0]
}

/// Path of a request line: what stands between the first two spaces.
pub open spec fn path_of(line: Seq<u8>) -> Seq<u8> {
    let fields = split(line, SPACE);
    if fields.len() > 1 {
        fields[1]
    } else {
        Seq::empty()
    }
}

/// Method and path of a request line.
pub fn request_target(line: &[u8]) -> (target: (&[u8], &[u8]))
    ensures
        target.0@ == method_of(line@),
        target.1@ == path_of(line@),
{
    proof {
        lemma_first_of(line@, SPACE);
    }
    let (method, rest) = split_first(line, SPACE);
    match rest {
        None => {
            let none = slice_subrange(line, 0, 0);
            assert(none@ =~= Seq::<u8>::empty());
            assert(line@.take(line@.len() as int) =~= line@);
            (method, none)
        },
        Some(rest) => {
            proof {
                lemma_first_of(rest@, SPACE);
                assert(rest@.take(rest@.len() as int) =~= rest@);
                assert(split(line@, SPACE)[1] == split(rest@, SPACE)[0]);
            }
            let (path, _) = split_first(rest, SPACE);
            (method, path)
        },
    }
}

/// A line of printable ASCII characters, at least one.
pub open spec fn plain(line: Seq<u8>) -> bool {
    line.len() > 0 && forall|i: int| 0 <= i < line.len() ==> 0x20 <= #[trigger] line[i] <= 0x7E
}

/// A line as such: at least one byte, and none that ends a line.
pub open spec fn single(line: Seq<u8>) -> bool {
    line.len() > 0 && forall|i: int|
        0 <= i < line.len() ==> #[trigger] line[i] != 0x0D && line[i] != 0x0A
}

/// Lines as they are sent: each with a carriage return and a line feed.
pub open spec fn sent(list: Seq<Seq<u8>>) -> Seq<u8>
    decreases list.len(),
{
    if list.len() == 0 {
        Seq::empty()
    } else {
        list[0] + seq![0x0Du8, 0x0Au8] + sent(list.drop_first())
    }
}

/// A message as it is sent: its lines, an empty line, and the body.
pub open spec fn message(list: Seq<Seq<u8>>, body: Seq<u8>) -> Seq<u8> {
    sent(list) + seq![0x0Du8, 0x0Au8] + body
}

proof fn lemma_position_behind(piece: Seq<u8>, rest: Seq<u8>)
    requires
        forall|i: int| 0 <= i < piece.len() ==> #[trigger] piece[i] != 0x0D,
    ensures
        position(piece + rest, HEAD_END@) == (match position(rest, HEAD_END@) {
            None => None::<int>,
            Some(at) => Some(at + piece.len()),
        }),
    decreases piece.len(),
{
    let text = piece + rest;
    if piece.len() == 0 {
        assert(text =~= rest);
    } else {
        assert(text[0] == piece[0]);
        if begins_with(text, HEAD_END@) {
            assert(text.take(4)[0] == HEAD_END@[0]);
        }
        assert(text.drop_first() =~= piece.drop_first() + rest);
        lemma_position_behind(piece.drop_first(), rest);
    }
}

proof fn lemma_position_of_the_empty_line(list: Seq<Seq<u8>>, body: Seq<u8>)
    requires
        list.len() > 0,
        forall|i: int| 0 <= i < list.len() ==> single(#[trigger] list[i]),
    ensures
        position(message(list, body), HEAD_END@) == Some(sent(list).len() - 2),
    decreases list.len(),
{
    let line = list[0];
    let rest = list.drop_first();
    let eol = seq![0x0Du8, 0x0Au8];
    let text = message(list, body);
    let after = message(rest, body);
    assert(single(line));
    assert(text =~= line + (eol + after));
    lemma_position_behind(line, eol + after);
    let tail = eol + after;
    if rest.len() == 0 {
        assert(sent(rest) =~= Seq::<u8>::empty());
        assert(tail.take(4) =~= HEAD_END@);
        assert(begins_with(tail, HEAD_END@));
        assert(position(tail, HEAD_END@) == Some(0int));
        assert(sent(list).len() == line.len() + 2);
    } else {
        assert(single(list[1]));
        assert(rest[0] == list[1]);
        assert(after[0] == rest[0][0]);
        assert forall|i: int| 0 <= i < rest.len() implies single(#[trigger] rest[i]) by {
            assert(rest[i] == list[i + 1]);
        }
        lemma_position_of_the_empty_line(rest, body);
        if begins_with(tail, HEAD_END@) {
            assert(tail.take(4)[2] == HEAD_END@[2]);
            assert(tail[2] == after[0]);
        }
        let one = tail.drop_first();
        if begins_with(one, HEAD_END@) {
            assert(one.take(4)[0] == HEAD_END@[0]);
        }
        assert(one.drop_first() =~= after);
        assert(tail.len() > 0 && one.len() > 0);
        assert(position(one, HEAD_END@) == Some(sent(rest).len() - 2 + 1));
        assert(position(tail, HEAD_END@) == Some(sent(rest).len() - 2 + 2));
        assert(sent(list).len() == line.len() + 2 + sent(rest).len());
    }
}

proof fn lemma_lines_come_back(list: Seq<Seq<u8>>)
    requires
        forall|i: int| 0 <= i < list.len() ==> single(#[trigger] list[i]),
    ensures
        lines(message(list, Seq::empty())) == list.push(Seq::empty()),
    decreases list.len(),
{
    let text = message(list, Seq::empty());
    if list.len() == 0 {
        assert(text =~= seq![0x0Du8] + seq![LINE_FEED] + Seq::empty());
        lemma_first_behind(seq![0x0Du8], LINE_FEED, Seq::empty());
        assert(without_return(seq![0x0Du8]) =~= Seq::<u8>::empty());
        assert(lines(Seq::<u8>::empty()) =~= Seq::empty());
        assert(lines(text) =~= list.push(Seq::empty()));
    } else {
        let line = list[0];
        let rest = list.drop_first();
        assert(single(line));
        assert forall|i: int| 0 <= i < rest.len() implies single(#[trigger] rest[i]) by {
            assert(rest[i] == list[i + 1]);
        }
        lemma_lines_come_back(rest);
        let after = message(rest, Seq::empty());
        let ended = line.push(0x0D);
        assert(text =~= ended + seq![LINE_FEED] + after);
        assert(!ended.contains(LINE_FEED));
        lemma_first_behind(ended, LINE_FEED, after);
        assert(without_return(ended) =~= line);
        assert(lines(text) =~= seq![line] + lines(after));
        assert(lines(text) =~= list.push(Seq::empty()));
    }
}

proof fn lemma_ascii_is_utf8(text: Seq<u8>)
    requires
        forall|i: int| 0 <= i < text.len() ==> #[trigger] text[i] < 0x80,
    ensures
        valid_utf8(text),
{
    let chars = Seq::new(text.len(), |i: int| text[i] as char);
    assert(is_ascii_chars(chars));
    is_ascii_chars_encode_utf8(chars);
    assert forall|i: int| 0 <= i < text.len() implies text[i] == #[trigger] encode_utf8(
        chars,
    )[i] by {
        assert(chars[i] as u8 == encode_utf8(chars)[i]);
    }
    assert(encode_utf8(chars) =~= text);
    encode_utf8_valid_utf8(chars);
}

proof fn lemma_sent_is_ascii(list: Seq<Seq<u8>>)
    requires
        forall|i: int| 0 <= i < list.len() ==> plain(#[trigger] list[i]),
    ensures
        forall|i: int| 0 <= i < sent(list).len() ==> #[trigger] sent(list)[i] < 0x80,
    decreases list.len(),
{
    if list.len() > 0 {
        let rest = list.drop_first();
        assert(plain(list[0]));
        assert forall|i: int| 0 <= i < rest.len() implies plain(#[trigger] rest[i]) by {
            assert(rest[i] == list[i + 1]);
        }
        lemma_sent_is_ascii(rest);
        let line = list[0];
        let text = sent(list);
        assert forall|i: int| 0 <= i < text.len() implies #[trigger] text[i] < 0x80 by {
            if i < line.len() {
                assert(text[i] == line[i]);
            } else if i >= line.len() + 2 {
                assert(text[i] == sent(rest)[i - line.len() - 2]);
            }
        }
    }
}

/// A message of any lines and any body is taken apart as it was put together:
/// the head ends right in front of the body, and holds the lines in order, with
/// the empty line behind them.
pub proof fn law_message_comes_apart(list: Seq<Seq<u8>>, body: Seq<u8>)
    requires
        list.len() > 0,
        forall|i: int| 0 <= i < list.len() ==> single(#[trigger] list[i]),
    ensures
        ({
            let text = message(list, body);
            let end = text.len() - body.len();
            &&& head_len(text) == Some(end)
            &&& text.take(end) == message(list, Seq::empty())
            &&& lines(text.take(end)) == list.push(Seq::empty())
            &&& text.skip(end) == body
        }),
{
    let text = message(list, body);
    let end = text.len() - body.len();
    let head = message(list, Seq::empty());
    lemma_position_of_the_empty_line(list, body);
    lemma_lines_come_back(list);
    assert(text.take(end) =~= head);
    assert(text.skip(end) =~= body);
}

/// Lines of printable ASCII characters are lines, and a head of such lines is
/// text.
pub proof fn law_plain_lines_are_text(list: Seq<Seq<u8>>)
    requires
        forall|i: int| 0 <= i < list.len() ==> plain(#[trigger] list[i]),
    ensures
        forall|i: int| 0 <= i < list.len() ==> single(#[trigger] list[i]),
        valid_utf8(message(list, Seq::empty())),
{
    let head = message(list, Seq::empty());
    lemma_sent_is_ascii(list);
    assert forall|i: int| 0 <= i < head.len() implies #[trigger] head[i] < 0x80 by {
        if i < sent(list).len() {
            assert(head[i] == sent(list)[i]);
        }
    }
    lemma_ascii_is_utf8(head);
    assert forall|i: int| 0 <= i < list.len() implies single(#[trigger] list[i]) by {
        assert(plain(list[i]));
    }
}

/// A name without white space: printable ASCII characters other than a space,
/// a colon not among them.
pub open spec fn plain_name(name: Seq<u8>) -> bool {
    name.len() > 0 && forall|i: int|
        0 <= i < name.len() ==> 0x21 <= #[trigger] name[i] <= 0x7E && name[i] != 0x3A
}

/// The same letter, in either case.
pub open spec fn same_letter(a: u8, b: u8) -> bool {
    ||| a == b
    ||| 0x41 <= a <= 0x5A && b == a + 0x20
    ||| 0x41 <= b <= 0x5A && a == b + 0x20
}

/// A header line.
pub open spec fn field_line(name: Seq<u8>, value: Seq<u8>) -> Seq<u8> {
    name + seq![0x3Au8, 0x20u8] + value
}

proof fn lemma_nothing_to_trim(text: Seq<u8>)
    requires
        forall|i: int| 0 <= i < text.len() ==> 0x21 <= #[trigger] text[i] <= 0x7E,
    ensures
        trimmed(text) == text,
        trimmed(seq![0x20u8] + text) == text,
{
    if text.len() > 0 {
        assert(0x21 <= text[0] <= 0x7E);
        assert(0x21 <= text[text.len() - 1] <= 0x7E);
    }
    assert(space_in_front(text) == 0);
    assert(space_at_end(text) == 0);
    let padded = seq![0x20u8] + text;
    assert(space_in_front(padded) == 1);
    assert(padded.skip(1) =~= text);
    assert(trimmed_front(text) == text);
    assert(trimmed_front(padded) == trimmed_front(padded.skip(1)));
}

/// A header line gives a field exactly if the name in front of its colon is that
/// of the field, letter by letter, in whatever case.
pub proof fn law_field_names_ignore_case(name: Seq<u8>, wanted: Seq<u8>, value: Seq<u8>)
    requires
        plain_name(name),
    ensures
        is_field(field_line(name, value), wanted) <==> name.len() == wanted.len() && forall|i: int|
            0 <= i < name.len() ==> same_letter(#[trigger] name[i], wanted[i]),
{
    let line = field_line(name, value);
    assert(line =~= name + seq![COLON] + (seq![0x20u8] + value));
    assert(!name.contains(COLON));
    lemma_first_behind(name, COLON, seq![0x20u8] + value);
    lemma_nothing_to_trim(name);
    if same_name(name, wanted) {
        assert forall|i: int| 0 <= i < name.len() implies same_letter(
            #[trigger] name[i],
            wanted[i],
        ) by {
            assert(lower(name[i]) == lower(wanted[i]));
        }
    }
}

/// A header line without a colon gives no field.
pub proof fn law_no_field_without_a_colon(line: Seq<u8>, name: Seq<u8>)
    requires
        !line.contains(0x3A),
    ensures
        !is_field(line, name),
{
    lemma_first_of(line, COLON);
    if first_of(line, COLON) < line.len() {
        assert(line.contains(line[first_of(line, COLON)]));
    }
}

/// The number of a header line is that of its value, all 32 bits of it; a value
/// that is no number, or a larger one, counts as none.
pub proof fn law_field_value_is_read_whole(name: Seq<u8>, value: Seq<u8>)
    requires
        plain_name(name),
        forall|i: int| 0 <= i < value.len() ==> 0x21 <= #[trigger] value[i] <= 0x7E,
    ensures
        match unsigned(value, 0xFFFF_FFFF) {
            Some(n) => line_number(field_line(name, value)) == n,
            None => line_number(field_line(name, value)) == 0,
        },
{
    let line = field_line(name, value);
    assert(line =~= name + seq![COLON] + (seq![0x20u8] + value));
    assert(!name.contains(COLON));
    lemma_first_behind(name, COLON, seq![0x20u8] + value);
    lemma_nothing_to_trim(value);
}

/// The last line for a field gives its number; without such a line it is 0.
pub proof fn law_last_field_counts(headers: Seq<Seq<u8>>, name: Seq<u8>, at: int)
    ensures
        0 <= at < headers.len() && is_field(headers[at], name) && (forall|i: int|
            at < i < headers.len() ==> !is_field(#[trigger] headers[i], name)) ==> field_number(
            headers,
            name,
        ) == line_number(headers[at]),
        (forall|i: int| 0 <= i < headers.len() ==> !is_field(#[trigger] headers[i], name))
            ==> field_number(headers, name) == 0,
    decreases headers.len(),
{
    if headers.len() > 0 {
        let before = headers.drop_last();
        law_last_field_counts(before, name, at);
        if forall|i: int| 0 <= i < headers.len() ==> !is_field(#[trigger] headers[i], name) {
            assert(!is_field(headers[headers.len() - 1], name));
            assert forall|i: int| 0 <= i < before.len() implies !is_field(
                #[trigger] before[i],
                name,
            ) by {
                assert(before[i] == headers[i]);
            }
        }
        if 0 <= at < before.len() && is_field(headers[at], name) && (forall|i: int|
            at < i < headers.len() ==> !is_field(#[trigger] headers[i], name)) {
            assert(!is_field(headers[headers.len() - 1], name));
            assert forall|i: int| at < i < before.len() implies !is_field(
                #[trigger] before[i],
                name,
            ) by {
                assert(before[i] == headers[i]);
            }
        }
    }
}

/// A request line: method, path and version with a space between each two.
pub open spec fn request_line(method: Seq<u8>, path: Seq<u8>, version: Seq<u8>) -> Seq<u8> {
    method + seq![0x20u8] + (path + seq![0x20u8] + version)
}

/// Method and path of a request line come back from it, whether or not a version
/// follows; a line of one word has no path.
pub proof fn law_request_line_comes_apart(method: Seq<u8>, path: Seq<u8>, version: Seq<u8>)
    requires
        !method.contains(0x20),
        !path.contains(0x20),
    ensures
        method_of(request_line(method, path, version)) == method,
        path_of(request_line(method, path, version)) == path,
        method_of(method + seq![0x20u8] + path) == method,
        path_of(method + seq![0x20u8] + path) == path,
        method_of(method) == method,
        path_of(method) == Seq::<u8>::empty(),
{
    law_split_undoes_joining(method, SPACE, path);
    law_split_undoes_joining(method, SPACE, path + seq![0x20u8] + version);
    law_split_undoes_joining(path, SPACE, version);
    assert(split(path, SPACE)[0] == path);
    assert(split(path + seq![SPACE] + version, SPACE)[0] == path);
}

/// ASCII white space: tab, line feed, vertical tab, form feed, carriage return
/// and space.
pub open spec fn blank(text: Seq<u8>) -> bool {
    forall|i: int|
        0 <= i < text.len() ==> {
            let byte = #[trigger] text[i];
            byte == 0x20 || byte == 0x09 || byte == 0x0A || byte == 0x0B || byte == 0x0C || byte
                == 0x0D
        }
}

proof fn lemma_front_is_trimmed(front: Seq<u8>, text: Seq<u8>)
    requires
        blank(front),
        text.len() > 0,
        0x21 <= text[0] <= 0x7E,
    ensures
        trimmed_front(front + text) == text,
    decreases front.len(),
{
    let whole = front + text;
    if front.len() == 0 {
        assert(whole =~= text);
    } else {
        assert(whole[0] == front[0]);
        assert(space_in_front(whole) == 1);
        let rest = front.skip(1);
        assert(whole.skip(1) =~= rest + text);
        assert forall|i: int| 0 <= i < rest.len() implies {
            let byte = #[trigger] rest[i];
            byte == 0x20 || byte == 0x09 || byte == 0x0A || byte == 0x0B || byte == 0x0C || byte
                == 0x0D
        } by {
            assert(rest[i] == front[i + 1]);
        }
        lemma_front_is_trimmed(rest, text);
    }
}

proof fn lemma_end_is_trimmed(text: Seq<u8>, back: Seq<u8>)
    requires
        blank(back),
        text.len() > 0,
        0x21 <= text[text.len() - 1] <= 0x7E,
    ensures
        trimmed_end(text + back) == text,
    decreases back.len(),
{
    let whole = text + back;
    if back.len() == 0 {
        assert(whole =~= text);
        assert(space_at_end(text) == 0);
    } else {
        assert(whole[whole.len() - 1] == back[back.len() - 1]);
        assert(space_at_end(whole) == 1);
        let rest = back.drop_last();
        assert(whole.take(whole.len() - 1) =~= text + rest);
        assert forall|i: int| 0 <= i < rest.len() implies {
            let byte = #[trigger] rest[i];
            byte == 0x20 || byte == 0x09 || byte == 0x0A || byte == 0x0B || byte == 0x0C || byte
                == 0x0D
        } by {
            assert(rest[i] == back[i]);
        }
        lemma_end_is_trimmed(text, rest);
    }
}

/// All white space around a text is left out, however much there is, and nothing
/// else: not the white space inside it.
pub proof fn law_white_space_is_trimmed(front: Seq<u8>, text: Seq<u8>, back: Seq<u8>)
    requires
        blank(front),
        blank(back),
        text.len() > 0,
        0x21 <= text[0] <= 0x7E,
        0x21 <= text[text.len() - 1] <= 0x7E,
    ensures
        trimmed(front + text + back) == text,
{
    assert(front + text + back =~= front + (text + back));
    lemma_front_is_trimmed(front, text + back);
    lemma_end_is_trimmed(text, back);
}

/// A line ends with a line feed, with or without a carriage return in front of
/// it; the last line may lack it.
pub proof fn law_lines_end_with_a_line_feed(line: Seq<u8>, rest: Seq<u8>)
    requires
        !line.contains(0x0A),
    ensures
        line.len() > 0 && line.last() != 0x0D ==> lines(line + seq![0x0Au8] + rest) == seq![line]
            + lines(rest),
        lines(line + seq![0x0Du8, 0x0Au8] + rest) == seq![line] + lines(rest),
        line.len() > 0 ==> lines(line) == seq![line],
        lines(Seq::empty()) == Seq::<Seq<u8>>::empty(),
{
    lemma_first_behind(line, LINE_FEED, rest);
    let ended = line.push(0x0D);
    assert(!ended.contains(LINE_FEED)) by {
        if ended.contains(LINE_FEED) {
            let i = choose|i: int| 0 <= i < ended.len() && ended[i] == LINE_FEED;
            assert(line[i] == LINE_FEED);
            assert(line.contains(LINE_FEED));
        }
    }
    lemma_first_behind(ended, LINE_FEED, rest);
    assert(line + seq![0x0Du8, 0x0Au8] + rest =~= ended + seq![LINE_FEED] + rest);
    assert(without_return(ended) =~= line);
    lemma_first_of(line, LINE_FEED);
    if first_of(line, LINE_FEED) < line.len() {
        assert(line.contains(line[first_of(line, LINE_FEED)]));
    }
    assert(lines(Seq::<u8>::empty()) =~= Seq::empty());
}

/// A white space character of Unicode, by its code point.
pub open spec fn white(code: int) -> bool {
    ||| 0x09 <= code <= 0x0D
    ||| code == 0x20
    ||| code == 0x85
    ||| code == 0xA0
    ||| code == 0x1680
    ||| 0x2000 <= code <= 0x200A
    ||| code == 0x2028
    ||| code == 0x2029
    ||| code == 0x202F
    ||| code == 0x205F
    ||| code == 0x3000
}

/// White space is told by its code point, in one, two or three bytes of UTF-8.
pub proof fn law_white_space_goes_by_code_point(a: u8, b: u8, c: u8)
    ensures
        a < 0x80 ==> (space1(a) <==> white(a as int)),
        a >= 0x80 ==> !space1(a),
        0xC2 <= a <= 0xDF && 0x80 <= b <= 0xBF ==> (space2(a, b) <==> white(
            (a - 0xC0) * 0x40 + (b - 0x80),
        )),
        0xE0 <= a <= 0xEF && 0x80 <= b <= 0xBF && 0x80 <= c <= 0xBF && (a == 0xE0 ==> b >= 0xA0)
            ==> (space3(a, b, c) <==> white((a - 0xE0) * 0x1000 + (b - 0x80) * 0x40 + (c - 0x80))),
{
}

/// One more white space character on either side does not matter.
pub proof fn law_one_more_space_does_not_matter(text: Seq<u8>, a: u8, b: u8, c: u8)
    ensures
        space1(a) ==> trimmed_front(seq![a] + text) == trimmed_front(text) && trimmed_end(
            text + seq![a],
        ) == trimmed_end(text),
        space2(a, b) ==> trimmed_front(seq![a, b] + text) == trimmed_front(text) && trimmed_end(
            text + seq![a, b],
        ) == trimmed_end(text),
        space3(a, b, c) ==> trimmed_front(seq![a, b, c] + text) == trimmed_front(text)
            && trimmed_end(text + seq![a, b, c]) == trimmed_end(text),
{
    let n = text.len() as int;
    assert((seq![a] + text).skip(1) =~= text);
    assert((seq![a, b] + text).skip(2) =~= text);
    assert((seq![a, b, c] + text).skip(3) =~= text);
    assert((text + seq![a]).take(n) =~= text);
    assert((text + seq![a, b]).take(n) =~= text);
    assert((text + seq![a, b, c]).take(n) =~= text);
    if space1(a) {
        assert(space_in_front(seq![a] + text) == 1);
        assert(space_at_end(text + seq![a]) == 1);
    }
    if space2(a, b) {
        assert(space_in_front(seq![a, b] + text) == 2);
        assert(space_at_end(text + seq![a, b]) == 2);
    }
    if space3(a, b, c) {
        assert(space_in_front(seq![a, b, c] + text) == 3);
        assert(space_at_end(text + seq![a, b, c]) == 3);
    }
}

/// White space around the name and around the value of a header line does not
/// matter: the line gives the field whose name it has, and the number that its
/// value is.
pub proof fn law_spacing_of_a_field_does_not_matter(
    front: Seq<u8>,
    name: Seq<u8>,
    gap: Seq<u8>,
    lead: Seq<u8>,
    value: Seq<u8>,
    tail: Seq<u8>,
    wanted: Seq<u8>,
)
    requires
        blank(front),
        blank(gap),
        blank(lead),
        blank(tail),
        plain_name(name),
        value.len() > 0,
        forall|i: int| 0 <= i < value.len() ==> 0x21 <= #[trigger] value[i] <= 0x7E,
    ensures
        ({
            let line = front + name + gap + seq![0x3Au8] + (lead + value + tail);
            &&& is_field(line, wanted) <==> is_field(field_line(name, value), wanted)
            &&& line_number(line) == line_number(field_line(name, value))
        }),
{
    let before = front + name + gap;
    let after = lead + value + tail;
    assert(!before.contains(COLON)) by {
        if before.contains(COLON) {
            let i = choose|i: int| 0 <= i < before.len() && before[i] == COLON;
            if i < front.len() {
                assert(front[i] == COLON);
            } else if i < front.len() + name.len() {
                assert(name[i - front.len()] == COLON);
            } else {
                assert(gap[i - front.len() - name.len()] == COLON);
            }
        }
    }
    lemma_first_behind(before, COLON, after);
    assert(0x21 <= name[0] <= 0x7E && 0x21 <= name[name.len() - 1] <= 0x7E);
    assert(0x21 <= value[0] <= 0x7E && 0x21 <= value[value.len() - 1] <= 0x7E);
    law_white_space_is_trimmed(front, name, gap);
    law_white_space_is_trimmed(lead, value, tail);
    let line = field_line(name, value);
    assert(line =~= name + seq![COLON] + (seq![0x20u8] + value));
    assert(!name.contains(COLON));
    lemma_first_behind(name, COLON, seq![0x20u8] + value);
    lemma_nothing_to_trim(name);
    lemma_nothing_to_trim(value);
}

} // verus!

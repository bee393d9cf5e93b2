//! Text that is put together in buffers of fixed capacity.
//!
//! Topics, payloads and responses are written piece by piece. A piece that does
//! not fit is left out, and so is all that follows it.

use vstd::prelude::*;
use vstd::string::StringExecFns;
use vstd::utf8::{encode_utf8, is_ascii_chars, is_ascii_chars_encode_utf8};

use crate::text::{is_digit, unsigned, value_of, without_plus};

verus! {

/// Length of `text` in UTF-8.
pub open spec fn byte_len(text: Seq<char>) -> nat {
    encode_utf8(text).len()
}

pub proof fn lemma_encode_concat(first: Seq<char>, second: Seq<char>)
    ensures
        encode_utf8(first + second) == encode_utf8(first) + encode_utf8(second),
    decreases first.len(),
{
    if first.len() == 0 {
        assert(first + second =~= second);
        assert(encode_utf8(first) + encode_utf8(second) =~= encode_utf8(second));
    } else {
        assert((first + second).drop_first() =~= first.drop_first() + second);
        lemma_encode_concat(first.drop_first(), second);
        assert(encode_utf8(first + second) =~= encode_utf8(first) + encode_utf8(second));
    }
}

/// The pieces one after the other.
pub open spec fn joined(pieces: Seq<Seq<char>>) -> Seq<char>
    decreases pieces.len(),
{
    if pieces.len() == 0 {
        Seq::empty()
    } else {
        joined(pieces.drop_last()) + pieces.last()
    }
}

pub proof fn lemma_joined_concat(first: Seq<Seq<char>>, second: Seq<Seq<char>>)
    ensures
        joined(first + second) == joined(first) + joined(second),
    decreases second.len(),
{
    if second.len() == 0 {
        assert(first + second =~= first);
        assert(joined(first) + joined(second) =~= joined(first));
    } else {
        assert((first + second).drop_last() =~= first + second.drop_last());
        lemma_joined_concat(first, second.drop_last());
        assert(joined(first + second) =~= joined(first) + joined(second));
    }
}

/// The pieces as texts.
pub open spec fn texts(pieces: Seq<&str>) -> Seq<Seq<char>> {
    Seq::new(pieces.len(), |i: int| pieces[i]@)
}

/// What becomes of `pieces` in a buffer of `capacity` bytes: all of them if
/// they fit, else those in front of the first one that does not.
pub open spec fn written(pieces: Seq<Seq<char>>, capacity: nat, text: Seq<char>) -> bool {
    if byte_len(joined(pieces)) <= capacity {
        text == joined(pieces)
    } else {
        exists|k: int|
            #![trigger pieces.take(k)]
            0 <= k < pieces.len() && text == joined(pieces.take(k)) && byte_len(text) <= capacity
                && capacity < byte_len(joined(pieces.take(k + 1)))
    }
}

/// Calls `heapless::String::push_str` on a buffer of `N` bytes that holds
/// `text`. It takes `piece` exactly if both fit the capacity, and the buffer
/// then holds one after the other; it never takes a part of a piece.
#[verifier::external_body]
fn push_within<const N: usize>(text: &str, piece: &str) -> (grown: Option<String>)
    requires
        byte_len(text@) <= N,
    ensures
        match grown {
            Some(whole) => byte_len(text@) + byte_len(piece@) <= N && whole@ == text@ + piece@,
            None => byte_len(text@) + byte_len(piece@) > N,
        },
{
    let mut buffer: heapless::String<N> = heapless::String::new();
    let _ = buffer.push_str(text);
    match buffer.push_str(piece) {
        Ok(()) => Some(String::from(buffer.as_str())),
        Err(()) => None,
    }
}

/// What was written to a buffer.
pub struct Written {
    pub text: String,
    /// Every piece fitted.
    pub complete: bool,
}

proof fn lemma_joined_grows(pieces: Seq<Seq<char>>, k: int)
    requires
        0 <= k <= pieces.len(),
    ensures
        byte_len(joined(pieces.take(k))) <= byte_len(joined(pieces)),
    decreases pieces.len(),
{
    if k == pieces.len() {
        assert(pieces.take(k) =~= pieces);
    } else {
        lemma_joined_grows(pieces.drop_last(), k);
        assert(pieces.drop_last().take(k) =~= pieces.take(k));
        lemma_encode_concat(joined(pieces.drop_last()), pieces.last());
    }
}

/// Write `pieces` to a buffer of `N` bytes.
pub fn write_pieces<const N: usize>(pieces: &[&str]) -> (out: Written)
    ensures
        written(texts(pieces@), N as nat, out.text@),
        out.complete == (byte_len(joined(texts(pieces@))) <= N),
        byte_len(out.text@) <= N,
{
    let ghost all = texts(pieces@);
    let mut text = String::new();
    let mut at: usize = 0;
    proof {
        assert(joined(all.take(0)) =~= Seq::<char>::empty());
        assert(text@ =~= Seq::<char>::empty());
        assert(encode_utf8(text@).len() == 0);
    }
    while at < pieces.len()
        invariant
            at <= pieces@.len(),
            all == texts(pieces@),
            text@ == joined(all.take(at as int)),
            byte_len(text@) <= N,
        decreases pieces@.len() - at,
    {
        let piece: &str = pieces[at];
        proof {
            assert(all.take(at + 1).drop_last() =~= all.take(at as int));
            assert(all.take(at + 1).last() == piece@);
            lemma_encode_concat(text@, piece@);
        }
        match push_within::<N>(text.as_str(), piece) {
            Some(whole) => {
                text = whole;
            },
            None => {
                proof {
                    lemma_joined_grows(all, at + 1);
                }
                return Written { text, complete: false };
            },
        }
        at = at + 1;
    }
    assert(all.take(at as int) =~= all);
    Written { text, complete: true }
}

/// Lengths of the pieces in UTF-8, summed up.
pub open spec fn total_len(pieces: Seq<Seq<char>>) -> nat
    decreases pieces.len(),
{
    if pieces.len() == 0 {
        0
    } else {
        total_len(pieces.drop_last()) + byte_len(pieces.last())
    }
}

pub proof fn lemma_joined_len(pieces: Seq<Seq<char>>)
    ensures
        byte_len(joined(pieces)) == total_len(pieces),
    decreases pieces.len(),
{
    if pieces.len() == 0 {
        assert(encode_utf8(joined(pieces)).len() == 0);
    } else {
        lemma_joined_len(pieces.drop_last());
        lemma_encode_concat(joined(pieces.drop_last()), pieces.last());
    }
}

/// The character of a decimal digit.
pub open spec fn digit_char(digit: nat) -> char {
    (0x30 + digit) as char
}

/// `n` in decimal.
pub open spec fn decimal_text(n: nat) -> Seq<char>
    decreases n,
{
    if n < 10 {
        seq![digit_char(n)]
    } else {
        decimal_text(n / 10).push(digit_char(n % 10))
    }
}

fn digit_text(digit: u32) -> (text: &'static str)
    requires
        digit < 10,
    ensures
        text@ == seq![digit_char(digit as nat)],
{
    proof {
        reveal_strlit("0");
        reveal_strlit("1");
        reveal_strlit("2");
        reveal_strlit("3");
        reveal_strlit("4");
        reveal_strlit("5");
        reveal_strlit("6");
        reveal_strlit("7");
        reveal_strlit("8");
        reveal_strlit("9");
    }
    let text: &'static str = match digit {
        0 => "0",
        1 => "1",
        2 => "2",
        3 => "3",
        4 => "4",
        5 => "5",
        6 => "6",
        7 => "7",
        8 => "8",
        _ => "9",
    };
    assert(text@ =~= seq![digit_char(digit as nat)]);
    text
}

/// `n` in decimal.
pub fn decimal(n: u32) -> (text: String)
    ensures
        text@ == decimal_text(n as nat),
    decreases n,
{
    let mut text = if n < 10 {
        String::new()
    } else {
        decimal(n / 10)
    };
    text.append(digit_text(n % 10));
    proof {
        if n < 10 {
            assert(text@ =~= seq![digit_char(n as nat)]);
        } else {
            assert(text@ =~= decimal_text((n / 10) as nat).push(digit_char((n % 10) as nat)));
        }
    }
    text
}

pub proof fn lemma_decimal_ascii(n: nat)
    ensures
        is_ascii_chars(decimal_text(n)),
        1 <= decimal_text(n).len(),
        byte_len(decimal_text(n)) == decimal_text(n).len(),
    decreases n,
{
    if n >= 10 {
        lemma_decimal_ascii(n / 10);
    }
    is_ascii_chars_encode_utf8(decimal_text(n));
}

/// A number below a power of ten has that many digits at most.
pub proof fn lemma_decimal_len(n: nat)
    ensures
        n < 10 ==> decimal_text(n).len() == 1,
        n < 100 ==> decimal_text(n).len() <= 2,
        n < 1000 ==> decimal_text(n).len() <= 3,
        n < 0x1_0000_0000 ==> decimal_text(n).len() <= 10,
{
    reveal_with_fuel(decimal_text, 11);
}

pub proof fn lemma_decimal_reads(n: nat)
    ensures
        ({
            let digits = encode_utf8(decimal_text(n));
            &&& digits.len() > 0
            &&& forall|i: int| 0 <= i < digits.len() ==> is_digit(digits[i])
            &&& value_of(digits) == n
        }),
    decreases n,
{
    lemma_decimal_ascii(n);
    let text = decimal_text(n);
    let digits = encode_utf8(text);
    is_ascii_chars_encode_utf8(text);
    if n < 10 {
        assert(text[0] as u8 == digits[0]);
        assert(digits.drop_last() =~= Seq::<u8>::empty());
        reveal_with_fuel(value_of, 2);
    } else {
        lemma_decimal_reads(n / 10);
        lemma_decimal_ascii(n / 10);
        let front = decimal_text(n / 10);
        let last = seq![digit_char(n % 10)];
        assert(text =~= front + last);
        lemma_encode_concat(front, last);
        assert(is_ascii_chars(last));
        is_ascii_chars_encode_utf8(last);
        assert(last[0] as u8 == encode_utf8(last)[0]);
        assert(digits.drop_last() =~= encode_utf8(front));
    }
}

/// A number that is written in decimal reads back as that number.
pub proof fn law_decimal_reads_back(n: nat, max: nat)
    requires
        n <= max,
    ensures
        unsigned(encode_utf8(decimal_text(n)), max) == Some(n),
{
    lemma_decimal_reads(n);
    assert(without_plus(encode_utf8(decimal_text(n))) == encode_utf8(decimal_text(n)));
}

/// Different numbers have different texts.
pub proof fn law_decimal_tells_apart(n: nat, m: nat)
    requires
        n != m,
    ensures
        decimal_text(n) != decimal_text(m),
{
    lemma_decimal_reads(n);
    lemma_decimal_reads(m);
}

/// The text of a number has no zero in front, unless it is that of zero.
pub proof fn law_decimal_has_no_leading_zero(n: nat)
    ensures
        n > 0 ==> decimal_text(n)[0] != '0',
        decimal_text(0) == seq!['0'],
    decreases n,
{
    if n >= 10 {
        law_decimal_has_no_leading_zero(n / 10);
        lemma_decimal_ascii(n / 10);
    }
}

/// The first `k + 1` pieces one after the other.
pub proof fn lemma_joined_step(pieces: Seq<Seq<char>>, k: int)
    requires
        0 <= k < pieces.len(),
    ensures
        joined(pieces.take(k + 1)) == joined(pieces.take(k)) + pieces[k],
        joined(pieces.take(0)) == Seq::<char>::empty(),
        k + 1 == pieces.len() ==> pieces.take(k + 1) == pieces,
{
    assert(pieces.take(k + 1).drop_last() =~= pieces.take(k));
    if k + 1 == pieces.len() {
        assert(pieces.take(k + 1) =~= pieces);
    }
}

/// What a buffer holds is always the text of whole pieces, from the first one
/// on; it is all of them exactly if they fit, and else one more would not.
pub proof fn law_pieces_are_written_whole(pieces: Seq<Seq<char>>, capacity: nat, text: Seq<char>)
    requires
        written(pieces, capacity, text),
    ensures
        byte_len(text) <= capacity,
        byte_len(joined(pieces)) <= capacity <==> text == joined(pieces),
        exists|k: int|
            #![trigger pieces.take(k)]
            0 <= k <= pieces.len() && text == joined(pieces.take(k)) && (k < pieces.len()
                ==> byte_len(text) + byte_len(pieces[k]) > capacity),
{
    if byte_len(joined(pieces)) <= capacity {
        let k = pieces.len() as int;
        assert(pieces.take(k) =~= pieces);
        assert(text == joined(pieces.take(k)));
    } else {
        let k = choose|k: int|
            #![trigger pieces.take(k)]
            0 <= k < pieces.len() && text == joined(pieces.take(k)) && byte_len(text) <= capacity
                && capacity < byte_len(joined(pieces.take(k + 1)));
        lemma_joined_step(pieces, k);
        lemma_encode_concat(joined(pieces.take(k)), pieces[k]);
        assert(text == joined(pieces.take(k)));
    }
}

/// A number that is written in decimal is not read where it is beyond the
/// limit.
pub proof fn law_numbers_beyond_the_limit_are_not_read(n: nat, max: nat)
    requires
        n > max,
    ensures
        unsigned(encode_utf8(decimal_text(n)), max) is None,
{
    lemma_decimal_reads(n);
    assert(without_plus(encode_utf8(decimal_text(n))) == encode_utf8(decimal_text(n)));
}

} // verus!

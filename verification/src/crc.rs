//! IEEE CRC-32 (zlib/PNG), table-driven.
//!
//! The same sum guards the firmware image and the boot sequence numbers; the
//! two differ only in the running value they start from.

use vstd::prelude::*;

use crate::crc_table::{crc_shift8, lemma_crc_split, lemma_crc_tab, CRC_TAB};

verus! {

/// The CRC register after it has taken in `bytes`, starting from `register`.
pub open spec fn crc_register(register: u32, bytes: Seq<u8>) -> u32
    decreases bytes.len(),
{
    if bytes.len() == 0 {
        register
    } else {
        crc_shift8(crc_register(register, bytes.drop_last()) ^ (bytes.last() as u32))
    }
}

/// The CRC-32 of `bytes` on top of the running value `crc`. The register is
/// inverted on the way in and on the way out.
pub open spec fn crc32_of(bytes: Seq<u8>, crc: u32) -> u32 {
    !crc_register(!crc, bytes)
}

/// IEEE CRC-32 of `buf`. `crc` is the running value: `0` for a fresh image,
/// `0xFFFF_FFFF` for a boot sequence number.
pub fn crc32(buf: &[u8], crc: u32) -> (sum: u32)
    ensures
        sum == crc32_of(buf@, crc),
{
    let mut c: u32 = !crc;
    let mut i: usize = 0;
    while i < buf.len()
        invariant
            i <= buf@.len(),
            c == crc_register(!crc, buf@.take(i as int)),
        decreases buf@.len() - i,
    {
        let b: u8 = buf[i];
        let x: u32 = c ^ (b as u32);
        assert(x & 0xff < 256) by (bit_vector);
        let entry: u32 = CRC_TAB[(x & 0xff) as usize];
        proof {
            lemma_crc_tab((x & 0xff) as int);
            lemma_crc_split(x);
            assert(buf@.take(i + 1).drop_last() =~= buf@.take(i as int));
            assert(x >> 8 == c >> 8) by (bit_vector)
                requires
                    x == c ^ (b as u32),
            ;
        }
        c = entry ^ (c >> 8);
        i = i + 1;
    }
    assert(buf@.take(buf@.len() as int) =~= buf@);
    assert(c ^ 0xFFFF_FFFFu32 == !c) by (bit_vector);
    c ^ 0xFFFF_FFFF
}

/// Nothing leaves the running value as it is.
pub proof fn lemma_crc32_of_nothing()
    ensures
        crc32_of(Seq::empty(), 0) == 0,
{
    assert(!(!0u32) == 0u32) by (bit_vector);
}

/// The sum of two pieces in turn is the sum of the whole: the running value
/// of the first piece seeds the second.
pub proof fn law_crc32_streams(first: Seq<u8>, second: Seq<u8>, crc: u32)
    ensures
        crc32_of(first + second, crc) == crc32_of(second, crc32_of(first, crc)),
{
    let register = crc_register(!crc, first);
    assert(!(!register) == register) by (bit_vector);
    lemma_register_concat(!crc, first, second);
}

proof fn lemma_register_concat(register: u32, first: Seq<u8>, second: Seq<u8>)
    ensures
        crc_register(register, first + second) == crc_register(
            crc_register(register, first),
            second,
        ),
    decreases second.len(),
{
    if second.len() == 0 {
        assert(first + second =~= first);
    } else {
        assert((first + second).drop_last() =~= first + second.drop_last());
        lemma_register_concat(register, first, second.drop_last());
    }
}

/// Two texts of one length that differ in a single byte have different sums,
/// whatever the running value.
pub proof fn law_crc32_tells_a_byte_apart(
    before: Seq<u8>,
    one: u8,
    other: u8,
    after: Seq<u8>,
    crc: u32,
)
    requires
        one != other,
    ensures
        crc32_of(before + seq![one] + after, crc) != crc32_of(before + seq![other] + after, crc),
{
    let register = crc_register(!crc, before);
    lemma_register_concat(!crc, before + seq![one], after);
    lemma_register_concat(!crc, before + seq![other], after);
    assert((before + seq![one]).drop_last() =~= before);
    assert((before + seq![other]).drop_last() =~= before);
    assert(register ^ (one as u32) != register ^ (other as u32)) by (bit_vector)
        requires
            one != other,
    ;
    lemma_shift_keeps_apart(register ^ (one as u32), register ^ (other as u32));
    let a = crc_register(!crc, before + seq![one]);
    let b = crc_register(!crc, before + seq![other]);
    lemma_register_keeps_apart(a, b, after);
    let x = crc_register(a, after);
    let y = crc_register(b, after);
    assert(x != y ==> !x != !y) by (bit_vector);
}

proof fn lemma_shift_keeps_apart(a: u32, b: u32)
    requires
        a != b,
    ensures
        crc_shift8(a) != crc_shift8(b),
{
    assert(a != b ==> crc_shift8(a) != crc_shift8(b)) by (bit_vector);
}

proof fn lemma_register_keeps_apart(a: u32, b: u32, bytes: Seq<u8>)
    requires
        a != b,
    ensures
        crc_register(a, bytes) != crc_register(b, bytes),
    decreases bytes.len(),
{
    if bytes.len() > 0 {
        lemma_register_keeps_apart(a, b, bytes.drop_last());
        let x = crc_register(a, bytes.drop_last());
        let y = crc_register(b, bytes.drop_last());
        let byte = bytes.last() as u32;
        assert(x != y ==> x ^ byte != y ^ byte) by (bit_vector);
        lemma_shift_keeps_apart(x ^ byte, y ^ byte);
    }
}

/// A sum without bytes is the running value.
pub proof fn law_crc32_of_nothing(crc: u32)
    ensures
        crc32_of(Seq::empty(), crc) == crc,
{
    assert(!(!crc) == crc) by (bit_vector);
}

} // verus!

//! Big-endian 32-bit words over byte sequences, and the fill value that
//! every chunk operation derives from a chunk index.

use vstd::prelude::*;

verus! {

/// The fill value for a chunk index: `(index << 4) + 1` on 32 bits, the
/// high bits of the index discarded.
pub open spec fn spec_fill_value(c: int) -> u32 {
    (((c % 0x1000_0000) * 16) + 1) as u32
}

/// Computes the fill value for a chunk index.
pub fn fill_value(c: u64) -> (r: u32)
    ensures
        r == spec_fill_value(c as int),
{
    ((c % 0x1000_0000) as u32) * 16 + 1
}

/// Unsigned 32-bit addition with wraparound.
pub open spec fn wrap_add32(a: u32, b: u32) -> u32 {
    ((a + b) % 0x1_0000_0000) as u32
}

/// Computes `a + b` with unsigned 32-bit wraparound.
pub fn wrapping_add32(a: u32, b: u32) -> (r: u32)
    ensures
        r == wrap_add32(a, b),
{
    let s: u64 = a as u64 + b as u64;
    (s % 0x1_0000_0000) as u32
}

/// Adding `b` twice with wraparound is adding `2 * b mod 2^32` once.
pub proof fn lemma_wrap_add_twice(a: u32, b: u32)
    ensures
        wrap_add32(wrap_add32(a, b), b) == wrap_add32(a, wrap_add32(b, b)),
{
    let m = 0x1_0000_0000;
    vstd::arithmetic::div_mod::lemma_mod_bound(a + b, m);
    vstd::arithmetic::div_mod::lemma_mod_bound(b + b, m);
    vstd::arithmetic::div_mod::lemma_small_mod(a as nat, m as nat);
    vstd::arithmetic::div_mod::lemma_small_mod(b as nat, m as nat);
    vstd::arithmetic::div_mod::lemma_add_mod_noop(a + b, b as int, m);
    vstd::arithmetic::div_mod::lemma_add_mod_noop(a as int, b + b, m);
}

/// Byte `k` (0 is the most significant) of a word's big-endian encoding.
pub open spec fn be_byte(w: u32, k: int) -> u8
    recommends
        0 <= k < 4,
{
    if k == 0 {
        (w / 0x100_0000) as u8
    } else if k == 1 {
        ((w / 0x1_0000) % 0x100) as u8
    } else if k == 2 {
        ((w / 0x100) % 0x100) as u8
    } else {
        (w % 0x100) as u8
    }
}

/// The word read big-endian from four consecutive bytes of a sequence.
pub open spec fn spec_word_at(s: Seq<u8>, off: int) -> u32
    recommends
        0 <= off,
        off + 4 <= s.len(),
{
    ((s[off] as int) * 0x100_0000 + (s[off + 1] as int) * 0x1_0000 + (s[off + 2] as int) * 0x100
        + (s[off + 3] as int)) as u32
}

/// Decoding the four big-endian bytes of a word gives the word back.
pub proof fn lemma_be_roundtrip(w: u32)
    ensures
        (be_byte(w, 0) as int) * 0x100_0000 + (be_byte(w, 1) as int) * 0x1_0000 + (be_byte(
            w,
            2,
        ) as int) * 0x100 + (be_byte(w, 3) as int) == w,
{
    let x = w as int;
    let t1 = x / 0x100;
    let t2 = t1 / 0x100;
    vstd::arithmetic::div_mod::lemma_fundamental_div_mod(x, 0x100);
    vstd::arithmetic::div_mod::lemma_fundamental_div_mod(t1, 0x100);
    vstd::arithmetic::div_mod::lemma_fundamental_div_mod(t2, 0x100);
    vstd::arithmetic::div_mod::lemma_div_denominator(x, 0x100, 0x100);
    vstd::arithmetic::div_mod::lemma_div_denominator(x, 0x1_0000, 0x100);
}

/// If four consecutive bytes of a sequence hold a word's big-endian
/// encoding, reading the word at that offset gives the word back.
pub proof fn lemma_word_at_encoded(s: Seq<u8>, off: int, w: u32)
    requires
        0 <= off,
        off + 4 <= s.len(),
        s[off] == be_byte(w, 0),
        s[off + 1] == be_byte(w, 1),
        s[off + 2] == be_byte(w, 2),
        s[off + 3] == be_byte(w, 3),
    ensures
        spec_word_at(s, off) == w,
{
    lemma_be_roundtrip(w);
}

} // verus!

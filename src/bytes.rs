//! Little-endian integer fields in byte sequences.

use vstd::prelude::*;

verus! {

/// The unsigned 32-bit little-endian integer held by `s[i..i + 4]`.
pub open spec fn le_u32_at(s: Seq<u8>, i: int) -> int {
    s[i] as int + 256 * (s[i + 1] as int) + 65536 * (s[i + 2] as int) + 16777216 * (s[i + 3] as int)
}

/// The four little-endian bytes of `x`.
pub open spec fn le_bytes(x: u32) -> Seq<u8> {
    seq![
        (x % 256) as u8,
        (x / 256 % 256) as u8,
        (x / 65536 % 256) as u8,
        (x / 16777216) as u8,
    ]
}

/// Reads the little-endian `u32` at `s[i..i + 4]`.
pub fn read_le_u32(s: &[u8], i: usize) -> (r: u32)
    requires
        i + 4 <= s@.len(),
    ensures
        r as int == le_u32_at(s@, i as int),
{
    let b0 = s[i] as u32;
    let b1 = s[i + 1] as u32;
    let b2 = s[i + 2] as u32;
    let b3 = s[i + 3] as u32;
    b0 + 256 * b1 + 65536 * b2 + 16777216 * b3
}

/// Appends the four little-endian bytes of `x` to `out`.
pub fn push_le_u32(out: &mut Vec<u8>, x: u32)
    ensures
        final(out)@ == old(out)@ + le_bytes(x),
{
    out.push((x % 256) as u8);
    out.push((x / 256 % 256) as u8);
    out.push((x / 65536 % 256) as u8);
    out.push((x / 16777216) as u8);
    assert(final(out)@ =~= old(out)@ + le_bytes(x));
}

/// Decoding the encoding of `x` gives `x` back.
pub proof fn lemma_le_round_trip(x: u32)
    ensures
        le_u32_at(le_bytes(x), 0) == x as int,
{
    let s = le_bytes(x);
    assert(s[0] as int == x % 256);
    assert(s[1] as int == x / 256 % 256);
    assert(s[2] as int == x / 65536 % 256);
    assert(s[3] as int == x / 16777216);
    assert((x % 256) as int + 256 * (x / 256 % 256) + 65536 * (x / 65536 % 256) + 16777216 * (x
        / 16777216) == x as int) by (nonlinear_arith);
}

} // verus!

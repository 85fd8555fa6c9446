//! Little-endian 32-bit fields, as the wire format writes them.

use vstd::arithmetic::div_mod::lemma_fundamental_div_mod;
use vstd::prelude::*;

verus! {

/// Two to the thirty-second: the number of values a 4-byte field can hold.
pub open spec fn two_32() -> int {
    4294967296
}

/// The unsigned value of the 4 little-endian bytes of `s` at `i`.
pub open spec fn le_u32_at(s: Seq<u8>, i: int) -> int {
    s[i] as int + 256 * (s[i + 1] as int) + 65536 * (s[i + 2] as int) + 16777216 * (s[i + 3] as int)
}

/// The signed (two's complement) value of the 4 little-endian bytes of `s` at `i`.
pub open spec fn le_i32_at(s: Seq<u8>, i: int) -> int {
    let u = le_u32_at(s, i);
    if u >= 2147483648 {
        u - two_32()
    } else {
        u
    }
}

/// The 4 little-endian bytes of the low 32 bits of a non-negative `u`.
pub open spec fn le_bytes(u: int) -> Seq<u8> {
    seq![
        (u % 256) as u8,
        ((u / 256) % 256) as u8,
        ((u / 65536) % 256) as u8,
        ((u / 16777216) % 256) as u8,
    ]
}

/// The 4 bytes that encode the 32-bit signed integer `v`.
pub open spec fn i32_bytes(v: int) -> Seq<u8> {
    le_bytes(if v < 0 { v + two_32() } else { v })
}

/// Reading back the 4 bytes of a value below two to the thirty-second gives the value.
pub proof fn lemma_le_bytes_round_trip(u: int)
    requires
        0 <= u < two_32(),
    ensures
        le_bytes(u).len() == 4,
        le_u32_at(le_bytes(u), 0) == u,
{
    let b = le_bytes(u);
    let q1 = u / 256;
    let q2 = q1 / 256;
    let q3 = q2 / 256;
    lemma_fundamental_div_mod(u, 256);
    lemma_fundamental_div_mod(q1, 256);
    lemma_fundamental_div_mod(q2, 256);
    assert(u / 65536 == q2) by (nonlinear_arith)
        requires q1 == u / 256, q2 == q1 / 256, u >= 0;
    assert(u / 16777216 == q3) by (nonlinear_arith)
        requires q1 == u / 256, q2 == q1 / 256, q3 == q2 / 256, u >= 0;
    assert(q3 < 256) by (nonlinear_arith)
        requires q3 == u / 16777216, 0 <= u < 4294967296;
    assert(q3 >= 0) by (nonlinear_arith)
        requires q3 == u / 16777216, 0 <= u;
}

/// Encoding a 32-bit signed integer and reading it back gives the integer.
pub proof fn lemma_i32_bytes_round_trip(v: int)
    requires
        -2147483648 <= v < 2147483648,
    ensures
        i32_bytes(v).len() == 4,
        le_i32_at(i32_bytes(v), 0) == v,
{
    lemma_le_bytes_round_trip(if v < 0 { v + two_32() } else { v });
}

/// The field at `i` reads the same in `s` as in the 4 bytes cut out of it there.
pub proof fn lemma_le_i32_at_subrange(s: Seq<u8>, i: int)
    requires
        0 <= i,
        i + 4 <= s.len(),
    ensures
        le_i32_at(s, i) == le_i32_at(s.subrange(i, i + 4), 0),
{
    let t = s.subrange(i, i + 4);
    assert(t[0] == s[i]);
    assert(t[1] == s[i + 1]);
    assert(t[2] == s[i + 2]);
    assert(t[3] == s[i + 3]);
}

/// A length below two to the thirty-first reads back as itself.
pub proof fn lemma_length_round_trip(n: int)
    requires
        0 <= n < 2147483648,
    ensures
        le_bytes(n).len() == 4,
        le_i32_at(le_bytes(n), 0) == n,
{
    lemma_le_bytes_round_trip(n);
}

/// Reads the little-endian 32-bit signed integer stored at `index`.
pub fn parse_le_i32(slice: &[u8], index: usize) -> (r: i32)
    requires
        index + 4 <= slice@.len(),
    ensures
        r as int == le_i32_at(slice@, index as int),
{
    let u: u32 = slice[index] as u32 + (slice[index + 1] as u32) * 256
        + (slice[index + 2] as u32) * 65536 + (slice[index + 3] as u32) * 16777216;
    if u >= 2147483648 {
        (u as i64 - 4294967296) as i32
    } else {
        u as i32
    }
}

/// Appends the 4 little-endian bytes of the low 32 bits of `u`.
pub fn push_le_u64(out: &mut Vec<u8>, u: u64)
    ensures
        final(out)@ == old(out)@ + le_bytes(u as int),
{
    out.push((u % 256) as u8);
    out.push(((u / 256) % 256) as u8);
    out.push(((u / 65536) % 256) as u8);
    out.push(((u / 16777216) % 256) as u8);
    assert(final(out)@ =~= old(out)@ + le_bytes(u as int));
}

/// Appends the 4 little-endian bytes of `v`.
pub fn push_le_i32(out: &mut Vec<u8>, v: i32)
    ensures
        final(out)@ == old(out)@ + i32_bytes(v as int),
{
    let u: u64 = if v < 0 {
        (v as i64 + 4294967296) as u64
    } else {
        v as u64
    };
    push_le_u64(out, u);
}

} // verus!

//! Little-endian integers inside byte sequences.

use vstd::prelude::*;

verus! {

/// The unsigned 16-bit value stored little-endian at `at`.
pub open spec fn le_u16(s: Seq<u8>, at: int) -> int {
    s[at] as int + 0x100 * (s[at + 1] as int)
}

/// The unsigned 32-bit value stored little-endian at `at`.
pub open spec fn le_u32(s: Seq<u8>, at: int) -> int {
    s[at] as int + 0x100 * (s[at + 1] as int) + 0x1_0000 * (s[at + 2] as int) + 0x100_0000 * (s[at
        + 3] as int)
}

/// The unsigned 64-bit value stored little-endian at `at`.
pub open spec fn le_u64(s: Seq<u8>, at: int) -> int {
    le_u32(s, at) + 0x1_0000_0000 * le_u32(s, at + 4)
}

/// Reading of an unsigned 32-bit pattern as a two's complement number.
pub open spec fn signed32(bits: int) -> int {
    if bits >= 0x8000_0000 {
        bits - 0x1_0000_0000
    } else {
        bits
    }
}

/// The signed 32-bit value stored little-endian at `at`.
pub open spec fn le_i32(s: Seq<u8>, at: int) -> int {
    signed32(le_u32(s, at))
}

/// Reads the `u16` stored little-endian at `at`.
pub fn u16_at(buf: &[u8], at: usize) -> (v: u16)
    requires
        at + 2 <= buf@.len(),
    ensures
        v == le_u16(buf@, at as int),
{
    let b0: u16 = buf[at] as u16;
    let b1: u16 = buf[at + 1] as u16;
    b0 + 0x100 * b1
}

/// Reads the `u32` stored little-endian at `at`.
pub fn u32_at(buf: &[u8], at: usize) -> (v: u32)
    requires
        at + 4 <= buf@.len(),
    ensures
        v == le_u32(buf@, at as int),
{
    let b0: u32 = buf[at] as u32;
    let b1: u32 = buf[at + 1] as u32;
    let b2: u32 = buf[at + 2] as u32;
    let b3: u32 = buf[at + 3] as u32;
    b0 + 0x100 * b1 + 0x1_0000 * b2 + 0x100_0000 * b3
}

/// Reads the `i32` stored little-endian at `at`.
pub fn i32_at(buf: &[u8], at: usize) -> (v: i32)
    requires
        at + 4 <= buf@.len(),
    ensures
        v == le_i32(buf@, at as int),
{
    let bits: u32 = u32_at(buf, at);
    to_signed(bits)
}

/// Reinterprets a 32-bit pattern as a two's complement number.
pub fn to_signed(bits: u32) -> (v: i32)
    ensures
        v == signed32(bits as int),
{
    if bits >= 0x8000_0000 {
        let low: i32 = (bits - 0x8000_0000) as i32;
        low + i32::MIN
    } else {
        bits as i32
    }
}

/// Reads a little-endian `u32` at `offset`, or nothing when fewer than four
/// bytes follow `offset`.
pub fn read_u32_le(buf: &[u8], offset: usize) -> (r: Option<u32>)
    ensures
        r is Some <==> offset + 4 <= buf@.len(),
        r matches Some(v) ==> v == le_u32(buf@, offset as int),
{
    if buf.len() < 4 || offset > buf.len() - 4 {
        return None;
    }
    Some(u32_at(buf, offset))
}

/// Reads a little-endian `u64` at `offset`, or nothing when fewer than eight
/// bytes follow `offset`.
pub fn read_u64_le(buf: &[u8], offset: usize) -> (r: Option<u64>)
    ensures
        r is Some <==> offset + 8 <= buf@.len(),
        r matches Some(v) ==> v == le_u64(buf@, offset as int),
{
    if buf.len() < 8 || offset > buf.len() - 8 {
        return None;
    }
    let low: u64 = u32_at(buf, offset) as u64;
    let high: u64 = u32_at(buf, offset + 4) as u64;
    Some(low + 0x1_0000_0000 * high)
}

/// Wrapping addition of two counts taken modulo 2^32 is the sum of the
/// counts modulo 2^32.
pub proof fn lemma_wrapping_sum(total: u32, part: u32, sum: int, n: int)
    requires
        total == sum % 0x1_0000_0000,
        part == n % 0x1_0000_0000,
    ensures
        vstd::wrapping::u32_specs::wrapping_add(total, part) == (sum + n) % 0x1_0000_0000,
{
    vstd::arithmetic::div_mod::lemma_add_mod_noop(sum, n, 0x1_0000_0000);
}

/// Four base-256 digits are the remainders of the number they spell,
/// lowest digit first.
pub proof fn lemma_digits_spell(v: int, d0: int, d1: int, d2: int, d3: int)
    requires
        0 <= d0 < 0x100,
        0 <= d1 < 0x100,
        0 <= d2 < 0x100,
        0 <= d3 < 0x100,
        v == d0 + 0x100 * d1 + 0x1_0000 * d2 + 0x100_0000 * d3,
    ensures
        0 <= v <= 0xffff_ffff,
        v % 0x100 == d0,
        v / 0x100 % 0x100 == d1,
        v / 0x1_0000 % 0x100 == d2,
        v / 0x100_0000 % 0x100 == d3,
{
    let q1 = d1 + 0x100 * d2 + 0x1_0000 * d3;
    let q2 = d2 + 0x100 * d3;
    vstd::arithmetic::div_mod::lemma_fundamental_div_mod_converse(v, 0x100, q1, d0);
    vstd::arithmetic::div_mod::lemma_fundamental_div_mod_converse(q1, 0x100, q2, d1);
    vstd::arithmetic::div_mod::lemma_fundamental_div_mod_converse(v, 0x1_0000, q2, d0 + 0x100 * d1);
    vstd::arithmetic::div_mod::lemma_fundamental_div_mod_converse(q2, 0x100, d3, d2);
    vstd::arithmetic::div_mod::lemma_fundamental_div_mod_converse(
        v,
        0x100_0000,
        d3,
        d0 + 0x100 * d1 + 0x1_0000 * d2,
    );
    vstd::arithmetic::div_mod::lemma_fundamental_div_mod_converse(d3, 0x100, 0, d3);
}

/// A number below 2^32 is spelled by its four base-256 digits.
pub proof fn lemma_spelled_by_digits(v: int)
    requires
        0 <= v <= 0xffff_ffff,
    ensures
        v == v % 0x100 + 0x100 * (v / 0x100 % 0x100) + 0x1_0000 * (v / 0x1_0000 % 0x100)
            + 0x100_0000 * (v / 0x100_0000 % 0x100),
{
    let q1 = v / 0x100;
    let q2 = v / 0x1_0000;
    let q3 = v / 0x100_0000;
    vstd::arithmetic::div_mod::lemma_fundamental_div_mod(v, 0x100);
    vstd::arithmetic::div_mod::lemma_fundamental_div_mod(q1, 0x100);
    vstd::arithmetic::div_mod::lemma_div_denominator(v, 0x100, 0x100);
    assert(q1 / 0x100 == q2);
    vstd::arithmetic::div_mod::lemma_fundamental_div_mod(q2, 0x100);
    vstd::arithmetic::div_mod::lemma_div_denominator(v, 0x1_0000, 0x100);
    assert(q2 / 0x100 == q3);
    vstd::arithmetic::div_mod::lemma_fundamental_div_mod(v, 0x100_0000);
    assert(0 <= q3 < 0x100);
    vstd::arithmetic::div_mod::lemma_fundamental_div_mod_converse(q3, 0x100, 0, q3);
}

} // verus!

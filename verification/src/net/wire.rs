//! Fixed-width little-endian integers, the building blocks of every frame.

use vstd::prelude::*;

verus! {

/// The two bytes of `x`, least significant first.
#[verifier::opaque]
pub open spec fn u16_le(x: u16) -> Seq<u8> {
    seq![(x % 256) as u8, (x / 256) as u8]
}

/// The four bytes of `x`, least significant first.
#[verifier::opaque]
pub open spec fn u32_le(x: u32) -> Seq<u8> {
    seq![
        (x % 256) as u8,
        (x / 256 % 256) as u8,
        (x / 65536 % 256) as u8,
        (x / 16777216) as u8,
    ]
}

/// The eight bytes of `x`, least significant first.
#[verifier::opaque]
pub open spec fn u64_le(x: u64) -> Seq<u8> {
    u32_le((x % 4294967296) as u32) + u32_le((x / 4294967296) as u32)
}

/// The unsigned number whose two's complement bit pattern is that of `x`.
pub open spec fn i32_bits(x: i32) -> u32 {
    if x >= 0 {
        x as u32
    } else {
        (x + 4294967296) as u32
    }
}

/// The signed number whose two's complement bit pattern is that of `x`.
pub open spec fn u32_signed(x: u32) -> i32 {
    if x < 2147483648 {
        x as i32
    } else {
        (x - 4294967296) as i32
    }
}

/// The four bytes of `x` in two's complement, least significant first.
pub open spec fn i32_le(x: i32) -> Seq<u8> {
    u32_le(i32_bits(x))
}

/// The number that the first two bytes of `s` spell, least significant first.
#[verifier::opaque]
pub open spec fn u16_from_le(s: Seq<u8>) -> u16
    recommends
        s.len() >= 2,
{
    (s[0] + 256 * s[1]) as u16
}

/// The number that the first four bytes of `s` spell, least significant first.
#[verifier::opaque]
pub open spec fn u32_from_le(s: Seq<u8>) -> u32
    recommends
        s.len() >= 4,
{
    (s[0] + 256 * s[1] + 65536 * s[2] + 16777216 * s[3]) as u32
}

/// The number that the first eight bytes of `s` spell, least significant first.
#[verifier::opaque]
pub open spec fn u64_from_le(s: Seq<u8>) -> u64
    recommends
        s.len() >= 8,
{
    (u32_from_le(s) + 4294967296 * u32_from_le(s.skip(4))) as u64
}

/// The signed number that the first four bytes of `s` spell in two's complement.
pub open spec fn i32_from_le(s: Seq<u8>) -> i32
    recommends
        s.len() >= 4,
{
    u32_signed(u32_from_le(s))
}

/// The twelve bytes of a position: x, then y, then z.
pub open spec fn pos_le(pos: [i32; 3]) -> Seq<u8> {
    i32_le(pos[0]) + i32_le(pos[1]) + i32_le(pos[2])
}

/// Reading back what `u16_le` wrote gives the number again, whatever follows it.
pub proof fn lemma_u16_round_trip(x: u16, rest: Seq<u8>)
    ensures
        u16_le(x).len() == 2,
        u16_from_le(u16_le(x) + rest) == x,
{
    reveal(u16_le);
    reveal(u16_from_le);
}

/// Reading back what `u32_le` wrote gives the number again, whatever follows it.
pub proof fn lemma_u32_round_trip(x: u32, rest: Seq<u8>)
    ensures
        u32_le(x).len() == 4,
        u32_from_le(u32_le(x) + rest) == x,
{
    reveal(u32_le);
    reveal(u32_from_le);
}

/// Reading back what `u64_le` wrote gives the number again, whatever follows it.
pub proof fn lemma_u64_round_trip(x: u64, rest: Seq<u8>)
    ensures
        u64_le(x).len() == 8,
        u64_from_le(u64_le(x) + rest) == x,
{
    reveal(u64_le);
    reveal(u64_from_le);
    let lo = (x % 4294967296) as u32;
    let hi = (x / 4294967296) as u32;
    let s = u64_le(x) + rest;
    lemma_u32_round_trip(lo, u32_le(hi) + rest);
    lemma_u32_round_trip(hi, rest);
    assert(s =~= u32_le(lo) + (u32_le(hi) + rest));
    assert(s.skip(4) =~= u32_le(hi) + rest);
}

/// Reading back what `i32_le` wrote gives the number again, whatever follows it.
pub proof fn lemma_i32_round_trip(x: i32, rest: Seq<u8>)
    ensures
        i32_le(x).len() == 4,
        i32_from_le(i32_le(x) + rest) == x,
{
    lemma_u32_round_trip(i32_bits(x), rest);
}

/// Appends the two bytes of `x` to `out`.
pub fn put_u16(out: &mut Vec<u8>, x: u16)
    ensures
        final(out)@ == old(out)@ + u16_le(x),
{
    out.push((x % 256) as u8);
    out.push((x / 256) as u8);
    assert(out@ =~= old(out)@ + u16_le(x)) by {
        reveal(u16_le);
    }
}

/// Appends the four bytes of `x` to `out`.
pub fn put_u32(out: &mut Vec<u8>, x: u32)
    ensures
        final(out)@ == old(out)@ + u32_le(x),
{
    out.push((x % 256) as u8);
    out.push((x / 256 % 256) as u8);
    out.push((x / 65536 % 256) as u8);
    out.push((x / 16777216) as u8);
    assert(out@ =~= old(out)@ + u32_le(x)) by {
        reveal(u32_le);
    }
}

/// Appends the eight bytes of `x` to `out`.
pub fn put_u64(out: &mut Vec<u8>, x: u64)
    ensures
        final(out)@ == old(out)@ + u64_le(x),
{
    put_u32(out, (x % 4294967296) as u32);
    put_u32(out, (x / 4294967296) as u32);
    assert(out@ =~= old(out)@ + u64_le(x)) by {
        reveal(u64_le);
    }
}

/// The bit pattern of `x` as an unsigned number.
pub fn i32_to_bits(x: i32) -> (r: u32)
    ensures
        r == i32_bits(x),
{
    if x >= 0 {
        x as u32
    } else {
        let low: u32 = (x - i32::MIN) as u32;
        low + 2147483648
    }
}

/// The signed number with the bit pattern `x`.
pub fn bits_to_i32(x: u32) -> (r: i32)
    ensures
        r == u32_signed(x),
{
    if x < 2147483648 {
        x as i32
    } else {
        let low: i32 = (x - 2147483648) as i32;
        low + i32::MIN
    }
}

/// Appends the four bytes of `x` to `out`.
pub fn put_i32(out: &mut Vec<u8>, x: i32)
    ensures
        final(out)@ == old(out)@ + i32_le(x),
{
    put_u32(out, i32_to_bits(x));
}

/// Appends the twelve bytes of `pos` to `out`.
pub fn put_pos(out: &mut Vec<u8>, pos: &[i32; 3])
    ensures
        final(out)@ == old(out)@ + pos_le(*pos),
{
    put_i32(out, pos[0]);
    put_i32(out, pos[1]);
    put_i32(out, pos[2]);
    assert(out@ =~= old(out)@ + pos_le(*pos));
}

/// Reads two bytes of `bytes` starting at `at`.
pub fn get_u16(bytes: &[u8], at: usize) -> (r: u16)
    requires
        at + 2 <= bytes@.len(),
    ensures
        r == u16_from_le(bytes@.skip(at as int)),
{
    let b0: u16 = bytes[at] as u16;
    let b1: u16 = bytes[at + 1] as u16;
    proof {
        reveal(u16_from_le);
    }
    b0 + 256 * b1
}

/// Reads four bytes of `bytes` starting at `at`.
pub fn get_u32(bytes: &[u8], at: usize) -> (r: u32)
    requires
        at + 4 <= bytes@.len(),
    ensures
        r == u32_from_le(bytes@.skip(at as int)),
{
    let b0: u32 = bytes[at] as u32;
    let b1: u32 = bytes[at + 1] as u32;
    let b2: u32 = bytes[at + 2] as u32;
    let b3: u32 = bytes[at + 3] as u32;
    proof {
        reveal(u32_from_le);
    }
    b0 + 256 * b1 + 65536 * b2 + 16777216 * b3
}

/// Reads eight bytes of `bytes` starting at `at`.
pub fn get_u64(bytes: &[u8], at: usize) -> (r: u64)
    requires
        at + 8 <= bytes@.len(),
    ensures
        r == u64_from_le(bytes@.skip(at as int)),
{
    assert(bytes.len() == bytes@.len());
    let lo: u64 = get_u32(bytes, at) as u64;
    let hi: u64 = get_u32(bytes, at + 4) as u64;
    assert(bytes@.skip(at as int).skip(4) =~= bytes@.skip(at + 4));
    proof {
        reveal(u64_from_le);
    }
    lo + 4294967296 * hi
}

/// Reads a signed four-byte number of `bytes` starting at `at`.
pub fn get_i32(bytes: &[u8], at: usize) -> (r: i32)
    requires
        at + 4 <= bytes@.len(),
    ensures
        r == i32_from_le(bytes@.skip(at as int)),
{
    bits_to_i32(get_u32(bytes, at))
}

} // verus!

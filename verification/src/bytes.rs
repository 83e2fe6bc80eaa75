//! Little-endian integers, as they travel on the wire, inside encrypted
//! plaintexts and in flash words.
use vstd::prelude::*;

verus! {

/// The value of two bytes read as a little-endian 16-bit integer.
pub open spec fn u16_from_le(b: Seq<u8>) -> u16
    recommends
        b.len() == 2,
{
    (b[0] as int + b[1] as int * 0x100) as u16
}

/// The two bytes of a 16-bit integer, least significant first.
pub open spec fn u16_to_le(x: u16) -> Seq<u8> {
    seq![(x % 0x100) as u8, (x / 0x100) as u8]
}

/// The value of four bytes read as a little-endian 32-bit integer.
pub open spec fn u32_from_le(b: Seq<u8>) -> u32
    recommends
        b.len() == 4,
{
    (b[0] as int + b[1] as int * 0x100 + b[2] as int * 0x1_0000 + b[3] as int * 0x100_0000) as u32
}

/// The four bytes of a 32-bit integer, least significant first.
pub open spec fn u32_to_le(x: u32) -> Seq<u8> {
    seq![
        (x % 0x100) as u8,
        (x / 0x100 % 0x100) as u8,
        (x / 0x1_0000 % 0x100) as u8,
        (x / 0x100_0000) as u8,
    ]
}

/// The value of eight bytes read as a little-endian 64-bit integer.
pub open spec fn u64_from_le(b: Seq<u8>) -> u64
    recommends
        b.len() == 8,
{
    (u32_from_le(b.subrange(0, 4)) as int + u32_from_le(b.subrange(4, 8)) as int * 0x1_0000_0000) as u64
}

/// The eight bytes of a 64-bit integer, least significant first.
pub open spec fn u64_to_le(x: u64) -> Seq<u8> {
    u32_to_le((x % 0x1_0000_0000) as u32) + u32_to_le((x / 0x1_0000_0000) as u32)
}

/// Reading back what `u16_to_le` wrote gives the integer again.
pub proof fn lemma_u16_le_round_trip(x: u16)
    ensures
        u16_to_le(x).len() == 2,
        u16_from_le(u16_to_le(x)) == x,
{
}

/// Reading back what `u32_to_le` wrote gives the integer again.
pub proof fn lemma_u32_le_round_trip(x: u32)
    ensures
        u32_to_le(x).len() == 4,
        u32_from_le(u32_to_le(x)) == x,
{
}

/// Writing out what `u32_from_le` read gives the four bytes again.
pub proof fn lemma_u32_le_bytes_round_trip(b: Seq<u8>)
    requires
        b.len() == 4,
    ensures
        u32_to_le(u32_from_le(b)) == b,
{
    let b0 = b[0] as int;
    let b1 = b[1] as int;
    let b2 = b[2] as int;
    let b3 = b[3] as int;
    let x = u32_from_le(b) as int;
    assert(x == b0 + 0x100 * (b1 + 0x100 * (b2 + 0x100 * b3)));
    assert(x % 0x100 == b0);
    assert(x / 0x100 == b1 + 0x100 * (b2 + 0x100 * b3));
    assert(x / 0x1_0000 == b2 + 0x100 * b3);
    assert(x / 0x100_0000 == b3);
    assert(u32_to_le(u32_from_le(b)) =~= b);
}

/// Reading back what `u64_to_le` wrote gives the integer again.
pub proof fn lemma_u64_le_round_trip(x: u64)
    ensures
        u64_to_le(x).len() == 8,
        u64_from_le(u64_to_le(x)) == x,
{
    let lo = (x % 0x1_0000_0000) as u32;
    let hi = (x / 0x1_0000_0000) as u32;
    lemma_u32_le_round_trip(lo);
    lemma_u32_le_round_trip(hi);
    assert(u64_to_le(x).subrange(0, 4) =~= u32_to_le(lo));
    assert(u64_to_le(x).subrange(4, 8) =~= u32_to_le(hi));
}

/// Reads the little-endian 16-bit integer at `at`.
pub fn read_u16_le(bytes: &[u8], at: usize) -> (x: u16)
    requires
        at + 2 <= bytes@.len(),
    ensures
        x == u16_from_le(bytes@.subrange(at as int, at + 2)),
{
    let b0 = bytes[at] as u16;
    let b1 = bytes[at + 1] as u16;
    b0 + b1 * 0x100
}

/// Reads the little-endian 32-bit integer at `at`.
pub fn read_u32_le(bytes: &[u8], at: usize) -> (x: u32)
    requires
        at + 4 <= bytes@.len(),
    ensures
        x == u32_from_le(bytes@.subrange(at as int, at + 4)),
{
    let b0 = bytes[at] as u32;
    let b1 = bytes[at + 1] as u32;
    let b2 = bytes[at + 2] as u32;
    let b3 = bytes[at + 3] as u32;
    b0 + b1 * 0x100 + b2 * 0x1_0000 + b3 * 0x100_0000
}

/// Reads the little-endian 64-bit integer at `at`.
pub fn read_u64_le(bytes: &[u8], at: usize) -> (x: u64)
    requires
        at + 8 <= bytes@.len(),
    ensures
        x == u64_from_le(bytes@.subrange(at as int, at + 8)),
{
    let len = bytes.len();
    assert(at + 8 <= len);
    let lo = read_u32_le(bytes, at) as u64;
    let hi = read_u32_le(bytes, at + 4) as u64;
    proof {
        let b = bytes@.subrange(at as int, at + 8);
        assert(b.subrange(0, 4) =~= bytes@.subrange(at as int, at + 4));
        assert(b.subrange(4, 8) =~= bytes@.subrange(at + 4, at + 8));
    }
    lo + hi * 0x1_0000_0000
}

/// Appends the two little-endian bytes of `x` to `out`.
pub fn push_u16_le(out: &mut Vec<u8>, x: u16)
    ensures
        final(out)@ == old(out)@ + u16_to_le(x),
{
    out.push((x % 0x100) as u8);
    out.push((x / 0x100) as u8);
    assert(out@ =~= old(out)@ + u16_to_le(x));
}

/// Appends the four little-endian bytes of `x` to `out`.
pub fn push_u32_le(out: &mut Vec<u8>, x: u32)
    ensures
        final(out)@ == old(out)@ + u32_to_le(x),
{
    out.push((x % 0x100) as u8);
    out.push((x / 0x100 % 0x100) as u8);
    out.push((x / 0x1_0000 % 0x100) as u8);
    out.push((x / 0x100_0000) as u8);
    assert(out@ =~= old(out)@ + u32_to_le(x));
}

/// Appends the eight little-endian bytes of `x` to `out`.
pub fn push_u64_le(out: &mut Vec<u8>, x: u64)
    ensures
        final(out)@ == old(out)@ + u64_to_le(x),
{
    push_u32_le(out, (x % 0x1_0000_0000) as u32);
    push_u32_le(out, (x / 0x1_0000_0000) as u32);
    assert(out@ =~= old(out)@ + u64_to_le(x));
}

} // verus!

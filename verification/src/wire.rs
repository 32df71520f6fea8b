//! Big-endian integers on the wire.

use vstd::prelude::*;

verus! {

/// The high-order byte of a 16-bit value.
pub open spec fn hi8(x: u16) -> u8 {
    (x / 256) as u8
}

/// The low-order byte of a 16-bit value.
pub open spec fn lo8(x: u16) -> u8 {
    (x % 256) as u8
}

/// The 16-bit value with the given bytes, high-order first.
pub open spec fn from_be16(high: u8, low: u8) -> u16 {
    (high * 256 + low) as u16
}

/// Byte `i` of a 32-bit value in network order: byte 0 is the high-order one.
pub open spec fn be32_byte(x: u32, i: int) -> u8 {
    if i == 0 {
        (x / 0x100_0000) as u8
    } else if i == 1 {
        (x / 0x1_0000 % 256) as u8
    } else if i == 2 {
        (x / 0x100 % 256) as u8
    } else {
        (x % 256) as u8
    }
}

/// The 32-bit value with the given bytes, high-order first.
pub open spec fn from_be32(b0: u8, b1: u8, b2: u8, b3: u8) -> u32 {
    (b0 * 0x100_0000 + b1 * 0x1_0000 + b2 * 0x100 + b3) as u32
}

/// The two bytes of `x` in network order.
pub open spec fn be16(x: u16) -> Seq<u8> {
    seq![hi8(x), lo8(x)]
}

/// The four bytes of `x` in network order.
pub open spec fn be32(x: u32) -> Seq<u8> {
    seq![be32_byte(x, 0), be32_byte(x, 1), be32_byte(x, 2), be32_byte(x, 3)]
}

/// Decoding the bytes of a 16-bit value gives the value back, and encoding
/// the value of two bytes gives the bytes back.
pub proof fn lemma_be16_round_trip(x: u16, b0: u8, b1: u8)
    ensures
        from_be16(hi8(x), lo8(x)) == x,
        hi8(from_be16(b0, b1)) == b0,
        lo8(from_be16(b0, b1)) == b1,
{
    assert(x == (x / 256) * 256 + x % 256);
    let v: int = b0 * 256 + b1;
    assert(v / 256 == b0 && v % 256 == b1);
}

/// Decoding the bytes of a 32-bit value gives the value back.
pub proof fn lemma_be32_decode_encode(y: u32)
    ensures
        from_be32(be32_byte(y, 0), be32_byte(y, 1), be32_byte(y, 2), be32_byte(y, 3)) == y,
{
    let q1: int = (y / 0x100) as int;
    let q2: int = (y / 0x1_0000) as int;
    let q3: int = (y / 0x100_0000) as int;
    assert(y == q1 * 0x100 + y % 0x100);
    assert(q2 == q1 / 0x100);
    assert(q1 == q2 * 0x100 + q1 % 0x100);
    assert(q3 == q2 / 0x100);
    assert(q2 == q3 * 0x100 + q2 % 0x100);
    assert(q3 < 0x100);
}

/// Encoding the value of four bytes gives the bytes back.
pub proof fn lemma_be32_encode_decode(b0: u8, b1: u8, b2: u8, b3: u8)
    ensures
        be32_byte(from_be32(b0, b1, b2, b3), 0) == b0,
        be32_byte(from_be32(b0, b1, b2, b3), 1) == b1,
        be32_byte(from_be32(b0, b1, b2, b3), 2) == b2,
        be32_byte(from_be32(b0, b1, b2, b3), 3) == b3,
{
    let v: int = b0 * 0x100_0000 + b1 * 0x1_0000 + b2 * 0x100 + b3;
    let q1: int = b0 * 0x1_0000 + b1 * 0x100 + b2;
    let q2: int = b0 * 0x100 + b1;
    assert(v == q1 * 0x100 + b3);
    assert(v / 0x100 == q1 && v % 0x100 == b3);
    assert(q1 == q2 * 0x100 + b2);
    assert(q1 / 0x100 == q2 && q1 % 0x100 == b2);
    assert(v / 0x1_0000 == q2);
    assert(q2 / 0x100 == b0 && q2 % 0x100 == b1);
    assert(v / 0x100_0000 == b0);
}

/// Appends `x` in network order.
pub fn push_u16(out: &mut Vec<u8>, x: u16)
    ensures
        final(out)@ == old(out)@ + be16(x),
{
    out.push((x / 256) as u8);
    out.push((x % 256) as u8);
}

/// Appends `x` in network order.
pub fn push_u32(out: &mut Vec<u8>, x: u32)
    ensures
        final(out)@ == old(out)@ + be32(x),
{
    out.push((x / 0x100_0000) as u8);
    out.push((x / 0x1_0000 % 256) as u8);
    out.push((x / 0x100 % 256) as u8);
    out.push((x % 256) as u8);
}

/// Reads the 16-bit value at `at`.
pub fn read_u16(data: &[u8], at: usize) -> (r: u16)
    requires
        at + 2 <= data@.len(),
    ensures
        r == from_be16(data@[at as int], data@[at + 1]),
{
    let high: u16 = data[at] as u16;
    let low: u16 = data[at + 1] as u16;
    high * 256 + low
}

/// Reads the 32-bit value at `at`.
pub fn read_u32(data: &[u8], at: usize) -> (r: u32)
    requires
        at + 4 <= data@.len(),
    ensures
        r == from_be32(data@[at as int], data@[at + 1], data@[at + 2], data@[at + 3]),
{
    let b0: u32 = data[at] as u32;
    let b1: u32 = data[at + 1] as u32;
    let b2: u32 = data[at + 2] as u32;
    let b3: u32 = data[at + 3] as u32;
    b0 * 0x100_0000 + b1 * 0x1_0000 + b2 * 0x100 + b3
}

} // verus!

//! Big-endian byte codecs for the fixed-width fields of tokens and serials.

use vstd::arithmetic::div_mod::lemma_fundamental_div_mod;
use vstd::prelude::*;

verus! {

/// The value of two bytes read in big-endian order.
pub open spec fn be16(b0: u8, b1: u8) -> int {
    b0 * 0x100 + b1
}

/// The value of four bytes read in big-endian order.
pub open spec fn be32(b0: u8, b1: u8, b2: u8, b3: u8) -> int {
    b0 * 0x100_0000 + b1 * 0x1_0000 + b2 * 0x100 + b3
}

/// Encodes `x` as two big-endian bytes.
pub fn u16_to_be_bytes(x: u16) -> (bytes: [u8; 2])
    ensures
        be16(bytes[0], bytes[1]) == x,
        bytes[0] == x / 0x100,
        bytes[1] == x % 0x100,
{
    let b0 = (x / 0x100) as u8;
    let b1 = (x % 0x100) as u8;
    proof {
        lemma_fundamental_div_mod(x as int, 0x100);
    }
    [b0, b1]
}

/// Decodes two big-endian bytes back into the value they encode.
pub fn u16_from_be_bytes(b0: u8, b1: u8) -> (x: u16)
    ensures
        x == be16(b0, b1),
{
    b0 as u16 * 0x100 + b1 as u16
}

/// Encodes `x` as four big-endian bytes.
pub fn u32_to_be_bytes(x: u32) -> (bytes: [u8; 4])
    ensures
        be32(bytes[0], bytes[1], bytes[2], bytes[3]) == x,
{
    let b3 = (x % 0x100) as u8;
    let x1 = x / 0x100;
    let b2 = (x1 % 0x100) as u8;
    let x2 = x1 / 0x100;
    let b1 = (x2 % 0x100) as u8;
    let b0 = (x2 / 0x100) as u8;
    proof {
        lemma_fundamental_div_mod(x as int, 0x100);
        lemma_fundamental_div_mod(x1 as int, 0x100);
        lemma_fundamental_div_mod(x2 as int, 0x100);
    }
    [b0, b1, b2, b3]
}

/// Decodes four big-endian bytes back into the value they encode.
pub fn u32_from_be_bytes(b0: u8, b1: u8, b2: u8, b3: u8) -> (x: u32)
    ensures
        x == be32(b0, b1, b2, b3),
{
    b0 as u32 * 0x100_0000 + b1 as u32 * 0x1_0000 + b2 as u32 * 0x100 + b3 as u32
}

/// Big-endian encoding loses nothing: each byte of the encoding of `x`
/// is determined by `x`, and the decoded value is `x` itself.
pub proof fn lemma_be32_round_trip(b0: u8, b1: u8, b2: u8, b3: u8)
    ensures
        be32(b0, b1, b2, b3) / 0x100_0000 == b0,
        be32(b0, b1, b2, b3) / 0x1_0000 % 0x100 == b1,
        be32(b0, b1, b2, b3) / 0x100 % 0x100 == b2,
        be32(b0, b1, b2, b3) % 0x100 == b3,
{
    let v = be32(b0, b1, b2, b3);
    assert(v / 0x100_0000 == b0 && v / 0x1_0000 % 0x100 == b1 && v / 0x100 % 0x100 == b2 && v
        % 0x100 == b3) by (nonlinear_arith)
        requires
            v == b0 * 0x100_0000 + b1 * 0x1_0000 + b2 * 0x100 + b3,
            b0 < 0x100 && b1 < 0x100 && b2 < 0x100 && b3 < 0x100,
    ;
}

} // verus!

//! Little-endian integer views of a byte sequence, and permissive text
//! decoding of fixed-width byte fields.

use vstd::prelude::*;

verus! {

/// The unsigned 32-bit value stored little-endian at position `p` of `b`.
pub open spec fn u32_le(b: Seq<u8>, p: int) -> int {
    b[p] + 0x100 * b[p + 1] + 0x1_0000 * b[p + 2] + 0x100_0000 * b[p + 3]
}

/// The signed (two's complement) 32-bit value stored little-endian at
/// position `p` of `b`.
pub open spec fn i32_le(b: Seq<u8>, p: int) -> int {
    if u32_le(b, p) < 0x8000_0000 {
        u32_le(b, p)
    } else {
        u32_le(b, p) - 0x1_0000_0000
    }
}

/// The text that permissive (lossy) UTF-8 decoding assigns to a byte
/// sequence: ill-formed sequences are replaced, never fatal, so every byte
/// sequence has a decoding.
pub uninterp spec fn lossy_of(b: Seq<u8>) -> Seq<char>;

/// Relies on `String::from_utf8_lossy`: the decoding is a pure function of
/// the bytes alone, with ill-formed sequences replaced by U+FFFD.
#[verifier::external_body]
pub fn utf8_lossy(b: &Vec<u8>) -> (r: String)
    ensures
        r@ == lossy_of(b@),
{
    String::from_utf8_lossy(b).to_string()
}

} // verus!

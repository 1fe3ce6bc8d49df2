//! Byte and bit primitives shared by the decoder, the printer and the
//! simulator: little-endian 16-bit composition and sign extension.

use vstd::prelude::*;

verus! {

/// Little-endian composition of two bytes into a 16-bit value.
pub fn concat_bytes(high_byte: u8, low_byte: u8) -> (r: u16)
    ensures
        r == high_byte * 256 + low_byte,
{
    (high_byte as u16) * 256 + (low_byte as u16)
}

/// The mathematical value of the canonical two's-complement sign extension
/// of a byte to 16 bits.
pub open spec fn spec_sign_extend_8(b: u8) -> u16 {
    if b < 128 {
        b as u16
    } else {
        (b + 0xFF00) as u16
    }
}

/// The signed value that a byte denotes in two's complement.
pub open spec fn spec_signed_8(b: u8) -> int {
    if b < 128 {
        b as int
    } else {
        b - 256
    }
}

/// The signed value that a 16-bit word denotes in two's complement.
pub open spec fn spec_signed_16(w: u16) -> int {
    if w < 0x8000 {
        w as int
    } else {
        w - 0x10000
    }
}

/// Canonical two's-complement sign extension of a byte to 16 bits.
pub fn sign_extend_8(b: u8) -> (r: u16)
    ensures
        r == spec_sign_extend_8(b),
        spec_signed_16(r) == spec_signed_8(b),
{
    if b < 128 {
        b as u16
    } else {
        (b as u16) + 0xFF00
    }
}

/// Reinterpret a 16-bit word as the signed value it denotes in two's
/// complement.
pub fn i16_from_u16(v: u16) -> (r: i16)
    ensures
        r as int == spec_signed_16(v),
{
    if v < 0x8000 {
        v as i16
    } else {
        -((0xFFFFu16 - v) as i16) - 1
    }
}

} // verus!

//! Instruction words and their fields.

use vstd::prelude::*;

verus! {

/// The four hexadecimal digits of an instruction word, most significant first.
pub open spec fn nibbles_of(value: u16) -> (u8, u8, u8, u8) {
    (
        (value / 4096) as u8,
        (value / 256 % 16) as u8,
        (value / 16 % 16) as u8,
        (value % 16) as u8,
    )
}

/// Splits an instruction word into its four 4-bit digits, most significant first.
pub fn nibbles(value: u16) -> (digits: (u8, u8, u8, u8))
    ensures
        digits == nibbles_of(value),
        digits.0 < 16 && digits.1 < 16 && digits.2 < 16 && digits.3 < 16,
        value == digits.0 * 4096 + digits.1 * 256 + digits.2 * 16 + digits.3,
{
    let a: u16 = (value & 0xf000) >> 12;
    let b: u16 = (value & 0x0f00) >> 8;
    let c: u16 = (value & 0x00f0) >> 4;
    let d: u16 = value & 0x000f;
    assert(a == value / 4096 && b == value / 256 % 16 && c == value / 16 % 16 && d == value % 16
        && a < 16 && b < 16 && c < 16 && d < 16 && value == a * 4096 + b * 256 + c * 16 + d)
        by (bit_vector)
        requires
            a == (value & 0xf000) >> 12,
            b == (value & 0x0f00) >> 8,
            c == (value & 0x00f0) >> 4,
            d == value & 0x000f,
    ;
    (a as u8, b as u8, c as u8, d as u8)
}

} // verus!

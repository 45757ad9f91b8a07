//! Packing and unpacking of nibbles, bytes and decimal digits.

use vstd::prelude::*;

verus! {

/// The 16-bit word whose high byte is `hi` and whose low byte is `lo`.
pub open spec fn word_from_bytes(hi: u8, lo: u8) -> u16 {
    (hi * 256 + lo) as u16
}

/// The 12-bit address whose three nibbles, from the most significant, are
/// `x`, `y` and `n`.
pub open spec fn address_from_nibbles(x: u8, y: u8, n: u8) -> u16 {
    (x * 256 + y * 16 + n) as u16
}

/// Namespace for the bit-level helpers of the interpreter.
pub struct BitManipulation;

impl BitManipulation {
    /// Joins three values into `x << 8 | y << 4 | n`. For nibbles (each below
    /// 16) this is the 12-bit address `x * 256 + y * 16 + n`.
    pub fn combine_nibbles_to_16bit_address(x: u8, y: u8, fourth_nibble: u8) -> (addr: u16)
        ensures
            addr == ((x as u16) << 8) | ((y as u16) << 4) | (fourth_nibble as u16),
            x < 16 && y < 16 && fourth_nibble < 16 ==> addr == address_from_nibbles(
                x,
                y,
                fourth_nibble,
            ),
            x < 16 && y < 16 && fourth_nibble < 16 ==> addr < 4096,
    {
        let addr: u16 = (x as u16) << 8 | (y as u16) << 4 | (fourth_nibble as u16);
        assert(x < 16 && y < 16 && fourth_nibble < 16 ==> (((x as u16) << 8) | ((y as u16) << 4) | (
        fourth_nibble as u16)) == (x as u16) * 256 + (y as u16) * 16 + (fourth_nibble as u16))
            by (bit_vector);
        addr
    }

    /// Joins two bytes into the big-endian word `first_byte * 256 + second_byte`.
    pub fn combine_bytes_to_16bit_instruction(first_byte: u8, second_byte: u8) -> (word: u16)
        ensures
            word == word_from_bytes(first_byte, second_byte),
            word / 256 == first_byte,
            word % 256 == second_byte,
    {
        let word: u16 = (first_byte as u16) << 8 | (second_byte as u16);
        assert((((first_byte as u16) << 8) | (second_byte as u16)) == (first_byte as u16) * 256 + (
        second_byte as u16)) by (bit_vector);
        word
    }

    /// Splits a byte into its decimal digits: hundreds, tens and ones.
    pub fn convert_decimal_to_bcd_tuple(decimal: u8) -> (digits: (u8, u8, u8))
        ensures
            digits.0 == decimal / 100,
            digits.1 == (decimal / 10) % 10,
            digits.2 == decimal % 10,
            digits.0 * 100 + digits.1 * 10 + digits.2 == decimal,
            digits.0 <= 2 && digits.1 <= 9 && digits.2 <= 9,
    {
        let hundreds: u8 = decimal / 100;
        let tens: u8 = (decimal % 100) / 10;
        let ones: u8 = decimal % 10;
        (hundreds, tens, ones)
    }
}

} // verus!

//! One byte as eight bits, most significant first, and one digit as one bit.

use vstd::prelude::*;
use crate::error::Error;

verus! {

/// The number of bits in a byte, and of binary digits that render one.
pub const BYTE_SIZE: usize = 8;

/// The weight of position `i` within a byte. Position 0 is the most
/// significant and weighs 128; position 7 weighs 1.
pub open spec fn place_value(i: int) -> int
    recommends
        0 <= i < 8,
{
    if i == 0 {
        128
    } else if i == 1 {
        64
    } else if i == 2 {
        32
    } else if i == 3 {
        16
    } else if i == 4 {
        8
    } else if i == 5 {
        4
    } else if i == 6 {
        2
    } else {
        1
    }
}

/// Whether the bit at position `i` of `byte` is set.
pub open spec fn bit_of_byte(byte: u8, i: int) -> bool
    recommends
        0 <= i < 8,
{
    (byte as int / place_value(i)) % 2 == 1
}

/// The eight bits of `byte`, most significant first.
pub open spec fn bits_of_byte(byte: u8) -> Seq<bool> {
    Seq::new(8, |i: int| bit_of_byte(byte, i))
}

/// What the bit at position `i` of `bits` adds to the value of the byte.
pub open spec fn bit_weight(bits: Seq<bool>, i: int) -> int
    recommends
        0 <= i < 8,
        bits.len() == 8,
{
    if bits[i] {
        place_value(i)
    } else {
        0
    }
}

/// The value of eight bits read as a byte, most significant first.
pub open spec fn byte_of_bits(bits: Seq<bool>) -> int
    recommends
        bits.len() == 8,
{
    bit_weight(bits, 0) + bit_weight(bits, 1) + bit_weight(bits, 2) + bit_weight(bits, 3)
        + bit_weight(bits, 4) + bit_weight(bits, 5) + bit_weight(bits, 6) + bit_weight(bits, 7)
}

/// Whether `c` is one of the two binary digits.
pub open spec fn is_binary_digit(c: char) -> bool {
    c == '0' || c == '1'
}

/// The bit that a binary digit stands for.
pub open spec fn bit_of_digit(c: char) -> bool {
    c == '1'
}

/// The digit that stands for a bit.
pub open spec fn digit_of_bit(bit: bool) -> char {
    if bit {
        '1'
    } else {
        '0'
    }
}

/// The sum of the weights of the last `n` positions of `bits`.
spec fn low_value(bits: Seq<bool>, n: nat) -> int
    decreases n,
{
    if n == 0 {
        0
    } else {
        low_value(bits, (n - 1) as nat) + bit_weight(bits, 8 - n)
    }
}

/// A one shifted left by `shift` places has the weight of position
/// `7 - shift`.
proof fn lemma_shifted_one(shift: u8)
    requires
        shift < 8,
    ensures
        (1u8 << shift) == place_value(7 - shift),
{
    assert(shift < 8 ==> (1u8 << shift) == (if shift == 0 {
        1u8
    } else if shift == 1 {
        2u8
    } else if shift == 2 {
        4u8
    } else if shift == 3 {
        8u8
    } else if shift == 4 {
        16u8
    } else if shift == 5 {
        32u8
    } else if shift == 6 {
        64u8
    } else {
        128u8
    })) by (bit_vector);
}

/// Masking with a shifted one tells whether the bit at that place is set.
proof fn lemma_mask_selects_place(byte: u8, shift: u8)
    requires
        shift < 8,
    ensures
        (byte & (1u8 << shift) != 0) == bit_of_byte(byte, 7 - shift),
{
    assert(shift < 8 ==> ((byte & (1u8 << shift) != 0) == ((byte / (1u8 << shift)) % 2 == 1)))
        by (bit_vector);
    lemma_shifted_one(shift);
}

/// Or-ing a shifted one into a smaller number adds the weight of that place.
proof fn lemma_set_place(acc: u8, shift: u8)
    requires
        shift < 8,
        acc < place_value(7 - shift),
    ensures
        (acc | (1u8 << shift)) == acc + place_value(7 - shift),
{
    assert(shift < 8 && acc < (1u8 << shift) ==> (acc | (1u8 << shift)) == acc + (1u8 << shift))
        by (bit_vector);
    lemma_shifted_one(shift);
}

/// The eight bits of a byte, most significant first.
pub fn byte_to_bits(byte: u8) -> (bits: [bool; BYTE_SIZE])
    ensures
        bits@ == bits_of_byte(byte),
{
    let mut bits = [false; BYTE_SIZE];
    let mut i: usize = 0;
    while i < BYTE_SIZE
        invariant
            i <= 8,
            forall|j: int| 0 <= j < i ==> bits@[j] == bit_of_byte(byte, j),
        decreases 8 - i,
    {
        let shift: u8 = 7 - i as u8;
        proof {
            lemma_mask_selects_place(byte, shift);
        }
        bits[i] = byte & (1u8 << shift) != 0;
        i += 1;
    }
    bits
}

/// The byte whose bits, most significant first, are `bits`.
pub fn bits_to_byte(bits: [bool; BYTE_SIZE]) -> (byte: u8)
    ensures
        byte as int == byte_of_bits(bits@),
{
    let mut byte: u8 = 0;
    let mut i: usize = 0;
    while i < BYTE_SIZE
        invariant
            i <= 8,
            byte as int == low_value(bits@, i as nat),
            i < 8 ==> (byte as int) < place_value(7 - i),
        decreases 8 - i,
    {
        let shift: u8 = i as u8;
        proof {
            reveal_with_fuel(low_value, 2);
        }
        if bits[7 - i] {
            proof {
                lemma_set_place(byte, shift);
            }
            byte = byte | (1u8 << shift);
        }
        i += 1;
    }
    proof {
        reveal_with_fuel(low_value, 9);
    }
    byte
}

/// The bit that the digit `c` stands for; any other character is rejected.
pub fn char_to_bit(c: char) -> (res: Result<bool, Error>)
    ensures
        res == (if is_binary_digit(c) {
            Ok::<bool, Error>(bit_of_digit(c))
        } else {
            Err(Error::InvalidDigit(c))
        }),
{
    match c {
        '1' => Ok(true),
        '0' => Ok(false),
        other => Err(Error::InvalidDigit(other)),
    }
}

/// The digit that stands for `bit`.
pub fn bit_to_char(bit: bool) -> (c: char)
    ensures
        c == digit_of_bit(bit),
{
    if bit {
        '1'
    } else {
        '0'
    }
}

/// Taking a byte apart and putting the bits together again gives the byte.
pub proof fn lemma_byte_round_trip(byte: u8)
    ensures
        byte_of_bits(bits_of_byte(byte)) == byte,
{
    assert(byte == 128 * ((byte / 128) % 2) + 64 * ((byte / 64) % 2) + 32 * ((byte / 32) % 2) + 16
        * ((byte / 16) % 2) + 8 * ((byte / 8) % 2) + 4 * ((byte / 4) % 2) + 2 * ((byte / 2) % 2)
        + (byte / 1) % 2) by (bit_vector);
    let bits = bits_of_byte(byte);
    assert forall|i: int| 0 <= i < 8 implies #[trigger] bit_weight(bits, i) == place_value(i) * ((
    byte as int / place_value(i)) % 2) by {}
}

/// Putting eight bits together and taking the byte apart again gives the
/// bits.
pub proof fn lemma_bits_round_trip(bits: Seq<bool>)
    requires
        bits.len() == 8,
    ensures
        0 <= byte_of_bits(bits) < 256,
        bits_of_byte(byte_of_bits(bits) as u8) == bits,
{
    let b0: u8 = if bits[0] { 1 } else { 0 };
    let b1: u8 = if bits[1] { 1 } else { 0 };
    let b2: u8 = if bits[2] { 1 } else { 0 };
    let b3: u8 = if bits[3] { 1 } else { 0 };
    let b4: u8 = if bits[4] { 1 } else { 0 };
    let b5: u8 = if bits[5] { 1 } else { 0 };
    let b6: u8 = if bits[6] { 1 } else { 0 };
    let b7: u8 = if bits[7] { 1 } else { 0 };
    let v: u8 = (128 * b0 + 64 * b1 + 32 * b2 + 16 * b3 + 8 * b4 + 4 * b5 + 2 * b6 + b7) as u8;
    assert(b0 <= 1 && b1 <= 1 && b2 <= 1 && b3 <= 1 && b4 <= 1 && b5 <= 1 && b6 <= 1 && b7 <= 1 && v
        == 128 * b0 + 64 * b1 + 32 * b2 + 16 * b3 + 8 * b4 + 4 * b5 + 2 * b6 + b7 ==> (v / 128) % 2
        == b0 && (v / 64) % 2 == b1 && (v / 32) % 2 == b2 && (v / 16) % 2 == b3 && (v / 8) % 2 == b4
        && (v / 4) % 2 == b5 && (v / 2) % 2 == b6 && (v / 1) % 2 == b7) by (bit_vector);
}

} // verus!

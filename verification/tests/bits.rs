use bintext::bits::{bit_to_char, bits_to_byte, byte_to_bits, char_to_bit, BYTE_SIZE};
use bintext::error::Error;
use bintext::stream::{bit_slice_to_arrays, bits_to_str, str_to_bits};

fn bits_to_byte_case(s: &str, b: u8) {
    let bits = str_to_bits(s).unwrap();
    let mut bits_arr: [bool; BYTE_SIZE] = [false; BYTE_SIZE];
    bits_arr.copy_from_slice(&bits);
    let byte = bits_to_byte(bits_arr);
    assert_eq!(byte, b);
}

fn byte_to_bits_case(s: &str, b: u8) {
    let sbits = str_to_bits(s).unwrap();
    let bbits = byte_to_bits(b);

    assert_eq!(&sbits, &bbits);
}

#[test]
fn test_str_to_bits() {
    let s = "10010101";
    let bits = str_to_bits(s).unwrap();
    let expected = vec![true, false, false, true, false, true, false, true];
    assert_eq!(bits, expected);
}

#[test]
fn test_bits_to_str_three_bits() {
    assert_eq!(bits_to_str(&vec![true, true, false]), "110");
}

#[test]
fn test_bits_to_str_four_bits() {
    assert_eq!(bits_to_str(&vec![true, false, false, true]), "1001");
}

#[test]
fn test_bit_slice_to_arrays() {
    let slice = vec![
        true, false, true, true, true, false, true, true, false, true, false, true, false,
        true, true, true,
    ];
    let arrays = vec![
        [true, false, true, true, true, false, true, true],
        [false, true, false, true, false, true, true, true],
    ];
    assert_eq!(bit_slice_to_arrays(&slice), arrays);
}

#[test]
fn test_bits_to_byte_zero() {
    bits_to_byte_case("00000000", 0b0);
}

#[test]
fn test_bits_to_byte_one() {
    bits_to_byte_case("00000001", 0b1);
}

#[test]
fn test_bits_to_byte_two() {
    bits_to_byte_case("00000010", 0b10);
}

#[test]
fn test_bits_to_byte_three() {
    bits_to_byte_case("00000011", 0b11);
}

#[test]
fn test_byte_to_bits_zero() {
    byte_to_bits_case("00000000", 0b0);
}

#[test]
fn test_byte_to_bits_one() {
    byte_to_bits_case("00000001", 0b1);
}

#[test]
fn test_byte_to_bits_two() {
    byte_to_bits_case("00000010", 0b10);
}

#[test]
fn test_byte_to_bits_three() {
    byte_to_bits_case("00000011", 0b11);
}

#[test]
fn byte_to_bits_is_most_significant_first() {
    assert_eq!(
        byte_to_bits(0x80),
        [true, false, false, false, false, false, false, false]
    );
    assert_eq!(
        byte_to_bits(0x01),
        [false, false, false, false, false, false, false, true]
    );
    assert_eq!(
        byte_to_bits(0x61),
        [false, true, true, false, false, false, false, true]
    );
    assert_eq!(byte_to_bits(0xff), [true; 8]);
    assert_eq!(byte_to_bits(0x00), [false; 8]);
}

#[test]
fn bits_to_byte_weighs_each_place() {
    let mut expected: u8 = 128;
    for i in 0..8 {
        let mut bits = [false; 8];
        bits[i] = true;
        assert_eq!(bits_to_byte(bits), expected);
        expected /= 2;
    }
    assert_eq!(bits_to_byte([true; 8]), 255);
    assert_eq!(bits_to_byte([false; 8]), 0);
    assert_eq!(
        bits_to_byte([true, false, true, false, false, true, false, true]),
        0xa5
    );
}

#[test]
fn every_byte_survives_the_round_trip() {
    for b in 0..=255u8 {
        assert_eq!(bits_to_byte(byte_to_bits(b)), b);
    }
}

#[test]
fn every_group_of_bits_survives_the_round_trip() {
    for n in 0..=255u8 {
        let mut bits = [false; 8];
        for i in 0..8 {
            bits[i] = n & (1 << i) != 0;
        }
        assert_eq!(byte_to_bits(bits_to_byte(bits)), bits);
    }
}

#[test]
fn char_to_bit_reads_the_two_digits() {
    assert_eq!(char_to_bit('1'), Ok(true));
    assert_eq!(char_to_bit('0'), Ok(false));
}

#[test]
fn char_to_bit_rejects_anything_else() {
    assert_eq!(char_to_bit('x'), Err(Error::InvalidDigit('x')));
    assert_eq!(char_to_bit('2'), Err(Error::InvalidDigit('2')));
    assert_eq!(char_to_bit(' '), Err(Error::InvalidDigit(' ')));
    assert_eq!(char_to_bit('\n'), Err(Error::InvalidDigit('\n')));
    assert_eq!(char_to_bit('\u{1f602}'), Err(Error::InvalidDigit('\u{1f602}')));
}

#[test]
fn bit_to_char_writes_the_two_digits() {
    assert_eq!(bit_to_char(true), '1');
    assert_eq!(bit_to_char(false), '0');
}

#[test]
fn str_to_bits_reports_the_invalid_digit() {
    assert_eq!(str_to_bits("1x0"), Err(Error::InvalidDigit('x')));
}

#[test]
fn str_to_bits_reports_the_first_invalid_digit_only() {
    assert_eq!(str_to_bits("01a1b"), Err(Error::InvalidDigit('a')));
    assert_eq!(str_to_bits("\u{7d42}0x"), Err(Error::InvalidDigit('\u{7d42}')));
    assert_eq!(str_to_bits("0101 "), Err(Error::InvalidDigit(' ')));
}

#[test]
fn str_to_bits_of_nothing_is_nothing() {
    assert_eq!(str_to_bits(""), Ok(vec![]));
}

#[test]
fn bits_to_str_of_nothing_is_empty() {
    assert_eq!(bits_to_str(&[]), "");
}

#[test]
fn bits_and_digits_undo_each_other() {
    let digits = "0110100001100101";
    let bits = str_to_bits(digits).unwrap();
    assert_eq!(bits.len(), 16);
    assert_eq!(bits_to_str(&bits), digits);
}

#[test]
fn bit_slice_to_arrays_of_nothing_is_nothing() {
    assert_eq!(bit_slice_to_arrays(&[]), Vec::<[bool; 8]>::new());
}

#[test]
fn bit_slice_to_arrays_keeps_the_order() {
    let mut slice = vec![false; 24];
    slice[0] = true;
    slice[15] = true;
    slice[16] = true;
    let arrays = bit_slice_to_arrays(&slice);
    assert_eq!(arrays.len(), 3);
    assert_eq!(arrays[0], [true, false, false, false, false, false, false, false]);
    assert_eq!(arrays[1], [false, false, false, false, false, false, false, true]);
    assert_eq!(arrays[2], [true, false, false, false, false, false, false, false]);
}

//! Whole digit strings: from digits to bits, from bits to digits, and bits
//! cut into groups of eight.

use vstd::prelude::*;
use vstd::string::StringExecFns;
use crate::bits::{
    bit_of_byte, bit_of_digit, byte_of_bits, char_to_bit, digit_of_bit, is_binary_digit,
    lemma_bits_round_trip, lemma_byte_round_trip, BYTE_SIZE,
};
use crate::error::Error;

verus! {

/// Whether every character of `text` is a binary digit.
pub open spec fn all_binary_digits(text: Seq<char>) -> bool {
    forall|i: int| 0 <= i < text.len() ==> is_binary_digit(#[trigger] text[i])
}

/// Whether position `i` holds the first character of `text` that is no
/// binary digit.
pub open spec fn is_first_non_digit(text: Seq<char>, i: int) -> bool {
    &&& 0 <= i < text.len()
    &&& !is_binary_digit(text[i])
    &&& all_binary_digits(text.take(i))
}

/// Whether `e` reports the first character of `text` that is no binary
/// digit.
pub open spec fn is_invalid_digit_error(text: Seq<char>, e: Error) -> bool {
    exists|i: int| is_first_non_digit(text, i) && e == Error::InvalidDigit(text[i])
}

/// The bits that the digits of `text` stand for, in order.
pub open spec fn bits_of_digits(text: Seq<char>) -> Seq<bool> {
    Seq::new(text.len(), |i: int| bit_of_digit(text[i]))
}

/// The digits that stand for `bits`, in order.
pub open spec fn digits_of_bits(bits: Seq<bool>) -> Seq<char> {
    Seq::new(bits.len(), |i: int| digit_of_bit(bits[i]))
}

/// The `k`-th group of eight consecutive bits of `bits`.
pub open spec fn chunk(bits: Seq<bool>, k: int) -> Seq<bool> {
    bits.subrange(8 * k, 8 * k + 8)
}

/// The bits of `bytes`, byte after byte, each most significant bit first.
pub open spec fn bits_of_bytes(bytes: Seq<u8>) -> Seq<bool> {
    Seq::new(8 * bytes.len(), |k: int| bit_of_byte(bytes[k / 8], k % 8))
}

/// The bytes that the groups of eight bits of `bits` stand for.
pub open spec fn bytes_of_bits(bits: Seq<bool>) -> Seq<u8> {
    Seq::new(bits.len() / 8, |k: int| byte_of_bits(chunk(bits, k)) as u8)
}

/// The bits that the digits of `s` stand for. The first character that is no
/// binary digit is reported, and nothing after it is looked at.
pub fn str_to_bits(s: &str) -> (res: Result<Vec<bool>, Error>)
    ensures
        res is Ok <==> all_binary_digits(s@),
        res matches Ok(bits) ==> bits@ == bits_of_digits(s@),
        res matches Err(e) ==> is_invalid_digit_error(s@, e),
{
    broadcast use vstd::string::axiom_spec_iter;

    let mut binvec: Vec<bool> = Vec::new();
    let chars = s.chars();
    for c in it: chars
        invariant
            it.seq() == s@,
            binvec@.len() == it.index(),
            all_binary_digits(s@.take(it.index())),
            forall|j: int| 0 <= j < it.index() ==> binvec@[j] == bit_of_digit(s@[j]),
    {
        let ghost i = it.index();
        match char_to_bit(c) {
            Ok(bit) => binvec.push(bit),
            Err(e) => {
                assert(is_first_non_digit(s@, i));
                return Err(e);
            },
        }
        assert forall|j: int| 0 <= j < i + 1 implies is_binary_digit(
            #[trigger] s@.take(i + 1)[j],
        ) by {
            if j < i {
                assert(is_binary_digit(s@.take(i)[j]));
            }
        }
    }
    assert(s@.take(s@.len() as int) =~= s@);
    Ok(binvec)
}

/// The digits that stand for `bits`, as a string.
pub fn bits_to_str(bits: &[bool]) -> (s: String)
    ensures
        s@ == digits_of_bits(bits@),
{
    let mut s = String::new();
    let mut i: usize = 0;
    while i < bits.len()
        invariant
            i <= bits.len(),
            s@ == digits_of_bits(bits@.take(i as int)),
        decreases bits.len() - i,
    {
        let digit = if bits[i] { "1" } else { "0" };
        proof {
            reveal_strlit("1");
            reveal_strlit("0");
        }
        s.append(digit);
        i += 1;
    }
    s
}

/// Cuts `slice` into consecutive groups of eight bits, in order.
pub fn bit_slice_to_arrays(slice: &[bool]) -> (arrays: Vec<[bool; BYTE_SIZE]>)
    requires
        slice@.len() % 8 == 0,
    ensures
        arrays@.len() * 8 == slice@.len(),
        forall|k: int| 0 <= k < arrays@.len() ==> (#[trigger] arrays@[k])@ == chunk(slice@, k),
{
    let mut arrays: Vec<[bool; BYTE_SIZE]> = Vec::new();
    let mut start: usize = 0;
    while start < slice.len()
        invariant
            slice@.len() % 8 == 0,
            start <= slice@.len(),
            start == arrays@.len() * 8,
            forall|k: int| 0 <= k < arrays@.len() ==> (#[trigger] arrays@[k])@ == chunk(slice@, k),
        decreases slice@.len() - start,
    {
        let mut arr = [false; BYTE_SIZE];
        let mut j: usize = 0;
        while j < BYTE_SIZE
            invariant
                j <= 8,
                start + 8 <= slice@.len() <= usize::MAX,
                forall|m: int| 0 <= m < j ==> arr@[m] == slice@[start + m],
            decreases 8 - j,
        {
            arr[j] = slice[start + j];
            j += 1;
        }
        arrays.push(arr);
        start += BYTE_SIZE;
    }
    arrays
}

/// Turning bits into digits and the digits into bits again gives the bits.
pub proof fn lemma_digits_of_bits_round_trip(bits: Seq<bool>)
    ensures
        all_binary_digits(digits_of_bits(bits)),
        bits_of_digits(digits_of_bits(bits)) == bits,
{
}

/// Turning binary digits into bits and the bits into digits again gives the
/// digits.
pub proof fn lemma_bits_of_digits_round_trip(text: Seq<char>)
    requires
        all_binary_digits(text),
    ensures
        digits_of_bits(bits_of_digits(text)) == text,
{
    assert forall|i: int| 0 <= i < text.len() implies digit_of_bit(bit_of_digit(text[i]))
        == text[i] by {
        assert(is_binary_digit(text[i]));
    }
}

/// Taking bytes apart into bits and packing the bits again gives the bytes.
pub proof fn lemma_bits_of_bytes_round_trip(bytes: Seq<u8>)
    ensures
        bits_of_bytes(bytes).len() == 8 * bytes.len(),
        bytes_of_bits(bits_of_bytes(bytes)) == bytes,
{
    let bits = bits_of_bytes(bytes);
    assert forall|k: int| 0 <= k < bytes.len() implies bytes_of_bits(bits)[k] == bytes[k] by {
        lemma_byte_round_trip(bytes[k]);
    }
}

/// Packing whole groups of eight bits into bytes and taking the bytes apart
/// again gives the bits.
pub proof fn lemma_bytes_of_bits_round_trip(bits: Seq<bool>)
    requires
        bits.len() % 8 == 0,
    ensures
        bytes_of_bits(bits).len() * 8 == bits.len(),
        bits_of_bytes(bytes_of_bits(bits)) == bits,
{
    let bytes = bytes_of_bits(bits);
    assert forall|i: int| 0 <= i < bits.len() implies bits_of_bytes(bytes)[i] == bits[i] by {
        let k = i / 8;
        lemma_bits_round_trip(chunk(bits, k));
    }
}

} // verus!

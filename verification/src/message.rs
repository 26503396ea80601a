//! The two kinds of message, how each is read and written, and the
//! conversions between them.

use vstd::prelude::*;
use vstd::slice::slice_to_vec;
use vstd::string::StrSliceExecFns;
use vstd::utf8::{decode_utf8, encode_utf8, valid_utf8};
use crate::bits::{
    bit_of_byte, bits_of_byte, bits_to_byte, byte_to_bits, is_binary_digit, BYTE_SIZE,
};
use crate::error::Error;
use crate::stream::{
    all_binary_digits, bit_slice_to_arrays, bits_of_bytes, bits_of_digits, bits_to_str,
    bytes_of_bits, chunk, digits_of_bits, is_invalid_digit_error, lemma_bits_of_bytes_round_trip,
    lemma_bits_of_digits_round_trip, lemma_bytes_of_bits_round_trip,
    lemma_digits_of_bits_round_trip, str_to_bits,
};
use crate::text::{
    decode_text, is_decode_error, is_longest_valid_prefix, lemma_ascii_is_text, text_of_bytes,
};

verus! {

/// A message held as raw bytes.
#[derive(Clone, Debug, PartialEq, Eq)]
pub struct BinMsg(Vec<u8>);

/// A message held as text.
#[derive(Clone, Debug, PartialEq, Eq)]
pub struct StrMsg(String);

impl View for BinMsg {
    type V = Seq<u8>;

    closed spec fn view(&self) -> Seq<u8> {
        self.0@
    }
}

impl View for StrMsg {
    type V = Seq<char>;

    closed spec fn view(&self) -> Seq<char> {
        self.0@
    }
}

/// The digit string that renders `bytes`, eight digits to the byte, as the
/// bytes of its text.
pub open spec fn digit_string_of(bytes: Seq<u8>) -> Seq<u8> {
    encode_utf8(digits_of_bits(bits_of_bytes(bytes)))
}

/// Whether `input` is the text of a digit string: valid text, a multiple of
/// eight characters long, and made of binary digits only.
pub open spec fn is_digit_string(input: Seq<u8>) -> bool {
    &&& valid_utf8(input)
    &&& decode_utf8(input).len() % 8 == 0
    &&& all_binary_digits(decode_utf8(input))
}

/// The bytes that `input` renders, if it is the text of a digit string.
pub open spec fn bytes_of_digit_string(input: Seq<u8>) -> Option<Seq<u8>> {
    if is_digit_string(input) {
        Some(bytes_of_bits(bits_of_digits(decode_utf8(input))))
    } else {
        None
    }
}

/// Whether `e` is the error that reading `input` as a digit string ends in.
/// The text is decoded first, then its length in characters is looked at,
/// then its characters from the first on.
pub open spec fn is_read_error(input: Seq<u8>, e: Error) -> bool {
    match e {
        Error::DecodeError { .. } => is_decode_error(input, e),
        Error::InvalidLength { expected_multiple, actual } => {
            &&& valid_utf8(input)
            &&& decode_utf8(input).len() % 8 != 0
            &&& expected_multiple == BYTE_SIZE
            &&& actual == decode_utf8(input).len()
        },
        Error::InvalidDigit(_) => {
            &&& valid_utf8(input)
            &&& decode_utf8(input).len() % 8 == 0
            &&& is_invalid_digit_error(decode_utf8(input), e)
        },
    }
}

/// Text made of binary digits only takes one byte per digit.
proof fn lemma_digits_are_single_bytes(text: Seq<char>)
    requires
        all_binary_digits(text),
    ensures
        encode_utf8(text).len() == text.len(),
{
    assert forall|i: int| 0 <= i < text.len() implies '\0' <= #[trigger] text[i] <= '\u{7f}' by {
        assert(is_binary_digit(text[i]));
    }
    vstd::utf8::is_ascii_chars_encode_utf8(text);
}

impl BinMsg {
    /// Reads a message from the text of a digit string. Input that is no
    /// valid text is rejected first, then a number of characters that is no
    /// multiple of eight, then the first character that is no binary digit.
    pub fn read(input: &[u8]) -> (res: Result<BinMsg, Error>)
        ensures
            match bytes_of_digit_string(input@) {
                Some(bytes) => res matches Ok(msg) && msg@ == bytes,
                None => res matches Err(e) && is_read_error(input@, e),
            },
    {
        let text = decode_text(input)?;
        let slen = text.unicode_len();
        if slen % BYTE_SIZE != 0 {
            return Err(Error::InvalidLength { expected_multiple: BYTE_SIZE, actual: slen });
        }
        let all_bits = str_to_bits(text)?;
        let bit_arrs = bit_slice_to_arrays(all_bits.as_slice());
        let mut bytes: Vec<u8> = Vec::new();
        let mut k: usize = 0;
        while k < bit_arrs.len()
            invariant
                k <= bit_arrs@.len(),
                bit_arrs@.len() * 8 == all_bits@.len(),
                forall|m: int|
                    0 <= m < bit_arrs@.len() ==> (#[trigger] bit_arrs@[m])@ == chunk(all_bits@, m),
                bytes@.len() == k,
                forall|m: int| 0 <= m < k ==> bytes@[m] == bytes_of_bits(all_bits@)[m],
            decreases bit_arrs@.len() - k,
        {
            bytes.push(bits_to_byte(bit_arrs[k]));
            k += 1;
        }
        Ok(BinMsg(bytes))
    }

    /// Appends to `sink` the digit string that renders the message, and
    /// nothing after it.
    pub fn write(&self, sink: &mut Vec<u8>)
        ensures
            final(sink)@ == old(sink)@ + digit_string_of(self@),
    {
        let mut bits: Vec<bool> = Vec::new();
        let mut k: usize = 0;
        while k < self.0.len()
            invariant
                k <= self.0@.len(),
                bits@ == bits_of_bytes(self.0@.take(k as int)),
            decreases self.0@.len() - k,
        {
            let byte_bits = byte_to_bits(self.0[k]);
            let mut j: usize = 0;
            while j < BYTE_SIZE
                invariant
                    j <= 8,
                    k < self.0@.len(),
                    byte_bits@ == bits_of_byte(self.0@[k as int]),
                    bits@ == bits_of_bytes(self.0@.take(k as int)) + byte_bits@.take(j as int),
                decreases 8 - j,
            {
                bits.push(byte_bits[j]);
                j += 1;
            }
            k += 1;
        }
        assert(self.0@.take(self.0@.len() as int) =~= self.0@);
        let s = bits_to_str(bits.as_slice());
        sink.extend_from_slice(s.as_str().as_bytes());
    }
}

impl StrMsg {
    /// Reads a message from the bytes of its text.
    pub fn read(input: &[u8]) -> (res: Result<StrMsg, Error>)
        ensures
            match text_of_bytes(input@) {
                Some(text) => res matches Ok(msg) && msg@ == text,
                None => res matches Err(e) && is_decode_error(input@, e),
            },
    {
        match decode_text(input) {
            Ok(text) => Ok(StrMsg(text.to_owned())),
            Err(e) => Err(e),
        }
    }

    /// Appends to `sink` the bytes of the message's text, and nothing after
    /// them.
    pub fn write(&self, sink: &mut Vec<u8>)
        ensures
            final(sink)@ == old(sink)@ + encode_utf8(self@),
    {
        sink.extend_from_slice(self.0.as_str().as_bytes());
    }
}

impl core::ops::Deref for BinMsg {
    type Target = Vec<u8>;

    /// The bytes of the message.
    fn deref(&self) -> (bytes: &Vec<u8>)
        ensures
            bytes@ == self@,
    {
        &self.0
    }
}

impl core::ops::Deref for StrMsg {
    type Target = String;

    /// The text of the message.
    fn deref(&self) -> (text: &String)
        ensures
            text@ == self@,
    {
        &self.0
    }
}

/// Two messages with the same bytes need not be equal as values in
/// specifications, so the conversion states its result through the view, in
/// its own `ensures`, and `from_spec` only describes it.
impl vstd::std_specs::convert::FromSpecImpl<StrMsg> for BinMsg {
    open spec fn obeys_from_spec() -> bool {
        false
    }

    open spec fn from_spec(s: StrMsg) -> BinMsg {
        choose|b: BinMsg| b@ == encode_utf8(s@)
    }
}

impl From<StrMsg> for BinMsg {
    /// The bytes of the text, as a byte message. This never fails.
    fn from(s: StrMsg) -> (b: BinMsg)
        ensures
            b@ == encode_utf8(s@),
    {
        BinMsg(slice_to_vec(s.0.as_str().as_bytes()))
    }
}

/// As for `From`: the conversion states its result through the views, in its
/// own `ensures`, and `try_from_spec` only describes it.
impl vstd::std_specs::convert::TryFromSpecImpl<BinMsg> for StrMsg {
    open spec fn obeys_try_from_spec() -> bool {
        false
    }

    open spec fn try_from_spec(b: BinMsg) -> Result<StrMsg, Error> {
        if valid_utf8(b@) {
            Ok(choose|s: StrMsg| s@ == decode_utf8(b@))
        } else {
            Err(
                Error::DecodeError {
                    valid_up_to: choose|n: usize| is_longest_valid_prefix(b@, n as int),
                },
            )
        }
    }
}

impl TryFrom<BinMsg> for StrMsg {
    type Error = Error;

    /// The text that the bytes encode, if they are valid UTF-8.
    fn try_from(b: BinMsg) -> (res: Result<StrMsg, Error>)
        ensures
            match text_of_bytes(b@) {
                Some(text) => res matches Ok(s) && s@ == text,
                None => res matches Err(e) && is_decode_error(b@, e),
            },
    {
        match decode_text(b.0.as_slice()) {
            Ok(text) => Ok(StrMsg(text.to_owned())),
            Err(e) => Err(e),
        }
    }
}

/// The digit string that renders `bytes` has eight bytes for each byte of
/// `bytes`, each of them the character `'1'` or `'0'` for one bit.
pub proof fn lemma_digit_string_bytes(bytes: Seq<u8>)
    ensures
        digit_string_of(bytes).len() == 8 * bytes.len(),
        forall|k: int|
            0 <= k < 8 * bytes.len() ==> #[trigger] digit_string_of(bytes)[k] == (if bit_of_byte(
                bytes[k / 8],
                k % 8,
            ) {
                0x31u8
            } else {
                0x30u8
            }),
{
    let digits = digits_of_bits(bits_of_bytes(bytes));
    lemma_digits_of_bits_round_trip(bits_of_bytes(bytes));
    lemma_digits_are_single_bytes(digits);
    vstd::utf8::is_ascii_chars_encode_utf8(digits);
    assert forall|k: int| 0 <= k < 8 * bytes.len() implies #[trigger] digit_string_of(bytes)[k]
        == digits[k] as u8 by {}
}

/// Reading the digit string that renders `bytes` succeeds and gives `bytes`;
/// writing them again gives the same digit string.
pub proof fn lemma_write_then_read(bytes: Seq<u8>)
    ensures
        bytes_of_digit_string(digit_string_of(bytes)) == Some(bytes),
        digit_string_of(bytes_of_digit_string(digit_string_of(bytes)).unwrap())
            == digit_string_of(bytes),
{
    let bits = bits_of_bytes(bytes);
    let digits = digits_of_bits(bits);
    lemma_bits_of_bytes_round_trip(bytes);
    lemma_digits_of_bits_round_trip(bits);
    vstd::utf8::encode_utf8_valid_utf8(digits);
    vstd::utf8::encode_utf8_decode_utf8(digits);
}

/// Writing the bytes that were read from a digit string gives that digit
/// string: `write` undoes `read` exactly.
pub proof fn lemma_read_then_write(input: Seq<u8>)
    requires
        bytes_of_digit_string(input) is Some,
    ensures
        digit_string_of(bytes_of_digit_string(input).unwrap()) == input,
{
    let text = decode_utf8(input);
    vstd::utf8::decode_utf8_encode_utf8(input);
    lemma_bytes_of_bits_round_trip(bits_of_digits(text));
    lemma_bits_of_digits_round_trip(text);
}

/// A digit string is any number of groups of eight bytes, each byte the
/// character `'0'` or `'1'`, and nothing else is one.
pub proof fn lemma_digit_string_by_bytes(input: Seq<u8>)
    ensures
        is_digit_string(input) <==> (input.len() % 8 == 0 && forall|i: int|
            0 <= i < input.len() ==> input[i] == 0x30 || input[i] == 0x31),
{
    if is_digit_string(input) {
        let bytes = bytes_of_digit_string(input).unwrap();
        lemma_read_then_write(input);
        lemma_digit_string_bytes(bytes);
        assert forall|i: int| 0 <= i < input.len() implies input[i] == 0x30 || input[i]
            == 0x31 by {
            assert(input[i] == digit_string_of(bytes)[i]);
        }
    }
    if forall|i: int| 0 <= i < input.len() ==> input[i] == 0x30 || input[i] == 0x31 {
        lemma_ascii_is_text(input);
    }
}

/// A text message turned into a byte message can always be turned back, and
/// comes back as the same text.
pub proof fn lemma_text_round_trip(text: Seq<char>)
    ensures
        text_of_bytes(encode_utf8(text)) == Some(text),
{
    vstd::utf8::encode_utf8_valid_utf8(text);
    vstd::utf8::encode_utf8_decode_utf8(text);
}

} // verus!

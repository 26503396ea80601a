//! UTF-8 validation as the standard library performs it.

use vstd::prelude::*;
use vstd::utf8::{
    decode_utf8, encode_utf8, encode_utf8_decode_utf8, encode_utf8_valid_utf8,
    is_ascii_chars_encode_utf8, valid_utf8,
};
use core::str::Utf8Error;
use crate::error::Error;

verus! {

/// `core::str::Utf8Error`, carried through as an opaque value.
#[verifier::external_type_specification]
#[verifier::external_body]
pub struct ExUtf8Error(Utf8Error);

/// The number of leading bytes that a `Utf8Error` reports as valid: what
/// `Utf8Error::valid_up_to` returns for it.
pub uninterp spec fn error_valid_up_to(e: Utf8Error) -> usize;

/// Whether `n` is the length of the longest prefix of `bytes` that is valid
/// UTF-8.
pub open spec fn is_longest_valid_prefix(bytes: Seq<u8>, n: int) -> bool {
    &&& 0 <= n <= bytes.len()
    &&& valid_utf8(bytes.subrange(0, n))
    &&& forall|m: int| n < m <= bytes.len() ==> !valid_utf8(#[trigger] bytes.subrange(0, m))
}

/// The text that `bytes` encode, if they are valid UTF-8.
pub open spec fn text_of_bytes(bytes: Seq<u8>) -> Option<Seq<char>> {
    if valid_utf8(bytes) {
        Some(decode_utf8(bytes))
    } else {
        None
    }
}

/// Whether `e` is the error that decoding `bytes` as text ends in: the bytes
/// are not valid UTF-8, and the error points behind their longest valid prefix.
pub open spec fn is_decode_error(bytes: Seq<u8>, e: Error) -> bool {
    &&& !valid_utf8(bytes)
    &&& e matches Error::DecodeError { valid_up_to }
    &&& is_longest_valid_prefix(bytes, valid_up_to as int)
}

/// `core::str::from_utf8` succeeds exactly on valid UTF-8 and then yields the
/// text that the bytes encode. On failure the error counts, as its
/// `valid_up_to`, the bytes of the longest prefix of the input that is valid.
pub assume_specification[ core::str::from_utf8 ](v: &[u8]) -> (res: Result<&str, Utf8Error>)
    ensures
        res is Ok <==> valid_utf8(v@),
        res matches Ok(s) ==> s@ == decode_utf8(v@),
        res matches Err(e) ==> is_longest_valid_prefix(v@, error_valid_up_to(e) as int),
;

/// `Utf8Error::valid_up_to` reads that count out of the error.
pub assume_specification[ Utf8Error::valid_up_to ](e: &Utf8Error) -> (n: usize)
    ensures
        n == error_valid_up_to(*e),
;

/// The text that `bytes` encode, or where they stop being valid UTF-8.
pub fn decode_text(bytes: &[u8]) -> (res: Result<&str, Error>)
    ensures
        match text_of_bytes(bytes@) {
            Some(chars) => res matches Ok(text) && text@ == chars,
            None => res matches Err(e) && is_decode_error(bytes@, e),
        },
{
    match core::str::from_utf8(bytes) {
        Ok(text) => Ok(text),
        Err(e) => Err(Error::DecodeError { valid_up_to: e.valid_up_to() }),
    }
}

/// Bytes below 128 are always text, and each of them is one character of
/// it.
pub proof fn lemma_ascii_is_text(bytes: Seq<u8>)
    requires
        forall|i: int| 0 <= i < bytes.len() ==> bytes[i] < 128,
    ensures
        text_of_bytes(bytes) == Some(Seq::new(bytes.len(), |i: int| bytes[i] as char)),
{
    let chars = Seq::new(bytes.len(), |i: int| bytes[i] as char);
    is_ascii_chars_encode_utf8(chars);
    assert(encode_utf8(chars) =~= bytes);
    encode_utf8_valid_utf8(chars);
    encode_utf8_decode_utf8(chars);
}

} // verus!

//! The two directions of the codec, from input bytes to output bytes.

use vstd::prelude::*;
use vstd::utf8::valid_utf8;
use crate::error::Error;
use crate::message::{
    bytes_of_digit_string, digit_string_of, is_read_error, lemma_write_then_read, BinMsg, StrMsg,
};
use crate::text::is_decode_error;

verus! {

/// Whether `byte` is a line feed or a carriage return.
pub open spec fn is_line_end(byte: u8) -> bool {
    byte == 0x0a || byte == 0x0d
}

/// `bytes` without the line feeds and carriage returns at its end.
pub open spec fn stripped(bytes: Seq<u8>) -> Seq<u8>
    decreases bytes.len(),
{
    if bytes.len() > 0 && is_line_end(bytes.last()) {
        stripped(bytes.drop_last())
    } else {
        bytes
    }
}

/// Whether `rest` is `bytes` without its trailing line ends: a prefix of
/// `bytes` that ends in none, with nothing but line ends cut off.
pub open spec fn is_stripped(rest: Seq<u8>, bytes: Seq<u8>) -> bool {
    &&& rest.len() <= bytes.len()
    &&& rest == bytes.take(rest.len() as int)
    &&& forall|i: int| rest.len() <= i < bytes.len() ==> is_line_end(#[trigger] bytes[i])
    &&& rest.len() > 0 ==> !is_line_end(rest.last())
}

/// The digit string that `encode` makes of `input`, where it accepts it.
pub open spec fn encoded(input: Seq<u8>) -> Option<Seq<u8>> {
    if valid_utf8(input) {
        Some(digit_string_of(input))
    } else {
        None
    }
}

/// The text that `decode` makes of `input`, where it accepts it: the bytes
/// that the digit string renders, if they are valid UTF-8.
pub open spec fn decoded(input: Seq<u8>) -> Option<Seq<u8>> {
    match bytes_of_digit_string(input) {
        Some(bytes) => if valid_utf8(bytes) {
            Some(bytes)
        } else {
            None
        },
        None => None,
    }
}

/// Whether `e` is the error that `decode` ends in on `input`: that of reading
/// the digit string, or else that of reading its bytes as text.
pub open spec fn is_decoding_error(input: Seq<u8>, e: Error) -> bool {
    match bytes_of_digit_string(input) {
        Some(bytes) => is_decode_error(bytes, e),
        None => is_read_error(input, e),
    }
}

/// Removes every line feed and carriage return from the end of `v`.
pub fn strip_trailing_whitespace(v: &mut Vec<u8>)
    ensures
        final(v)@ == stripped(old(v)@),
        is_stripped(final(v)@, old(v)@),
{
    proof {
        lemma_stripped(v@);
    }
    let n: u8 = 0x0a;
    let r: u8 = 0x0d;
    while v.len() > 0 && (v[v.len() - 1] == n || v[v.len() - 1] == r)
        invariant
            n == 0x0a,
            r == 0x0d,
            stripped(v@) == stripped(old(v)@),
        decreases v@.len(),
    {
        v.pop();
    }
}

/// Text in, digit string out: appends to `sink` the digit string that renders
/// the bytes of the text. Input that is no valid text leaves `sink` as it was.
pub fn encode(input: &[u8], sink: &mut Vec<u8>) -> (res: Result<(), Error>)
    ensures
        match encoded(input@) {
            Some(digits) => res is Ok && final(sink)@ == old(sink)@ + digits,
            None => res matches Err(e) && is_decode_error(input@, e) && final(sink)@ == old(
                sink,
            )@,
        },
{
    let smsg = StrMsg::read(input)?;
    proof {
        vstd::utf8::decode_utf8_encode_utf8(input@);
    }
    let bmsg: BinMsg = smsg.into();
    bmsg.write(sink);
    Ok(())
}

/// Digit string in, text out: appends to `sink` the bytes that the digit
/// string renders, if they are valid text. Any other input leaves `sink` as it
/// was.
pub fn decode(input: &[u8], sink: &mut Vec<u8>) -> (res: Result<(), Error>)
    ensures
        match decoded(input@) {
            Some(text) => res is Ok && final(sink)@ == old(sink)@ + text,
            None => res matches Err(e) && is_decoding_error(input@, e) && final(sink)@ == old(
                sink,
            )@,
        },
{
    let bmsg = BinMsg::read(input)?;
    let ghost bytes = bmsg@;
    let smsg: StrMsg = bmsg.try_into()?;
    proof {
        vstd::utf8::decode_utf8_encode_utf8(bytes);
    }
    smsg.write(sink);
    Ok(())
}

/// What is stripped off `bytes` is its line ends at the end, all of them and
/// nothing else; and only one sequence is `bytes` stripped in that sense.
pub proof fn lemma_stripped(bytes: Seq<u8>)
    ensures
        is_stripped(stripped(bytes), bytes),
        forall|rest: Seq<u8>| is_stripped(rest, bytes) ==> rest == stripped(bytes),
    decreases bytes.len(),
{
    if bytes.len() > 0 && is_line_end(bytes.last()) {
        let shorter = bytes.drop_last();
        lemma_stripped(shorter);
        let rest = stripped(bytes);
        assert(rest =~= bytes.take(rest.len() as int));
        assert forall|i: int| rest.len() <= i < bytes.len() implies is_line_end(
            #[trigger] bytes[i],
        ) by {
            if i < shorter.len() {
                assert(is_line_end(shorter[i]));
            }
        }
        assert forall|other: Seq<u8>| is_stripped(other, bytes) implies other == rest by {
            if other.len() < bytes.len() {
                assert(is_stripped(other, shorter));
            }
        }
    } else {
        assert(bytes.take(bytes.len() as int) =~= bytes);
    }
}

/// Decoding what `encode` made of a text gives the bytes of that text back.
pub proof fn lemma_encode_then_decode(input: Seq<u8>)
    requires
        valid_utf8(input),
    ensures
        encoded(input) is Some,
        decoded(encoded(input).unwrap()) == Some(input),
{
    lemma_write_then_read(input);
}

} // verus!

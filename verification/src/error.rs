//! The ways in which parsing and conversion fail.

use vstd::prelude::*;

verus! {

/// Why an input was rejected.
#[derive(Clone, Copy, Debug, PartialEq, Eq, Structural)]
pub enum Error {
    /// A character other than `'0'` or `'1'` stood in a digit string.
    InvalidDigit(char),
    /// The length of a digit string, counted in characters, was not a multiple
    /// of `expected_multiple`.
    InvalidLength { expected_multiple: usize, actual: usize },
    /// The bytes were not valid UTF-8; `valid_up_to` bytes from the start were.
    DecodeError { valid_up_to: usize },
}

} // verus!

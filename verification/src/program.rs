//! The whole conversion as the command line selects it: from everything that
//! was read to everything that is printed.

use vstd::prelude::*;
use crate::codec::{
    decode, decoded, encode, encoded, is_decoding_error, strip_trailing_whitespace, stripped,
};
use crate::error::Error;
use crate::text::is_decode_error;

verus! {

/// What the command line selects.
#[derive(Clone, Copy, Debug, PartialEq, Eq)]
pub struct Opts {
    /// Decode from digits to string
    pub decode: bool,
    /// No trailing newline in output
    pub no_trailing_newline: bool,
    /// Don't strip trailing newline from input
    pub no_strip: bool,
}

/// What of `input` is converted: all of it, or all but the line ends at its
/// end.
pub open spec fn source_of(opts: Opts, input: Seq<u8>) -> Seq<u8> {
    if opts.no_strip {
        input
    } else {
        stripped(input)
    }
}

/// What is printed for `input`, where it is accepted: the conversion in the
/// selected direction, and one line feed after it unless that is switched off.
pub open spec fn output_of(opts: Opts, input: Seq<u8>) -> Option<Seq<u8>> {
    let source = source_of(opts, input);
    let converted = if opts.decode {
        decoded(source)
    } else {
        encoded(source)
    };
    match converted {
        Some(bytes) => Some(
            if opts.no_trailing_newline {
                bytes
            } else {
                bytes.push(0x0a)
            },
        ),
        None => None,
    }
}

/// Whether `e` is the error that the conversion of `input` ends in.
pub open spec fn is_run_error(opts: Opts, input: Seq<u8>, e: Error) -> bool {
    let source = source_of(opts, input);
    if opts.decode {
        is_decoding_error(source, e)
    } else {
        is_decode_error(source, e)
    }
}

/// Converts `input` as `opts` selects and returns what is to be printed.
pub fn run(opts: &Opts, input: Vec<u8>) -> (res: Result<Vec<u8>, Error>)
    ensures
        match output_of(*opts, input@) {
            Some(output) => res matches Ok(bytes) && bytes@ == output,
            None => res matches Err(e) && is_run_error(*opts, input@, e),
        },
{
    let mut source = input;
    if !opts.no_strip {
        strip_trailing_whitespace(&mut source);
    }
    let mut output: Vec<u8> = Vec::new();
    let converted = if opts.decode {
        decode(source.as_slice(), &mut output)
    } else {
        encode(source.as_slice(), &mut output)
    };
    match converted {
        Ok(()) => {
            if !opts.no_trailing_newline {
                output.push(0x0a);
            }
            Ok(output)
        },
        Err(e) => Err(e),
    }
}

} // verus!

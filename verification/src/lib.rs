//! Conversion between text and its rendering as binary digits, eight digits
//! to the byte, most significant bit first.
//!
//! - [`bits`]: one byte as eight bits, one digit as one bit.
//! - [`stream`]: whole digit strings, and bits cut into groups of eight.
//! - [`text`]: bytes as UTF-8 text.
//! - [`message`]: the byte message and the text message, how each is read and
//!   written, and the conversions between them.
//! - [`codec`]: the two directions, from input bytes to output bytes.
//! - [`program`]: the conversion as the command line selects it.
//! - [`error`]: the ways in which an input is rejected.

pub mod error;
pub mod bits;
pub mod stream;
pub mod text;
pub mod message;
pub mod codec;
pub mod program;

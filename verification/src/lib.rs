//! Base64 encoding and decoding over the standard and the URL-safe alphabet.
//!
//! Encoding cuts the input into groups of three bytes and writes each group
//! as four characters of a 64-entry alphabet, with optional `=` padding of
//! the last group. Decoding reads the symbols of the alphabet back, passes
//! over every other character, and puts the bytes together again.
//!
//! Every function has a contract over the models in [`packing`], [`encode`]
//! and [`decode`]; [`laws`] proves what holds of the two directions together.

pub mod alphabet;
pub mod decode;
pub mod encode;
pub mod laws;
pub mod packing;

pub use alphabet::{
    get_base64_chars, get_base64url_chars, get_base_chars, get_char_position, get_position,
    Variant, CHARS_LEN, PAD,
};
pub use decode::{base64_decode, base64url_decode, decode_values, read_symbols, DecodeError};
pub use encode::{base64_encode, base64url_encode, base_encode};

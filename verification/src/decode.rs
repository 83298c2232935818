//! Decoding: text to bytes.
//!
//! Decoding is lenient. The symbols of both alphabets are read, whichever of
//! them wrote the text. Characters that are no symbols, the padding character
//! among them, are passed over, so a text decodes to the same bytes with
//! padding, without it, and with line breaks in between. The one text that is
//! refused is one whose symbols leave a last group of a single symbol, which
//! holds less than a byte.

use crate::alphabet::{char_position, get_char_position};
use crate::packing::{octet, octet_count, octets};
use vstd::prelude::*;

verus! {

/// Why a text could not be decoded.
#[derive(Clone, Copy, Debug, PartialEq, Eq, Structural)]
pub enum DecodeError {
    /// The symbols of the text end in a group of one symbol.
    MalformedEncoding,
}

/// The lookup of a character's 6-bit value, as a function.
pub open spec fn value_of() -> spec_fn(char) -> Option<u8> {
    |c: char| char_position(c)
}

/// The 6-bit values of the symbols of `text`, in order. Characters that are
/// no symbols of either alphabet are left out.
pub open spec fn symbol_values(text: Seq<char>) -> Seq<u8> {
    text.filter_map(value_of())
}

/// What `text` decodes to: the bytes that its symbols hold, unless the
/// symbols end in a group of one.
pub open spec fn decoded_text(text: Seq<char>) -> Result<Seq<u8>, DecodeError> {
    let values = symbol_values(text);
    if values.len() % 4 == 1 {
        Err(DecodeError::MalformedEncoding)
    } else {
        Ok(octets(values))
    }
}

/// Reads the symbols of `input` and returns their 6-bit values, passing over
/// every other character.
pub fn read_symbols(input: &str) -> (values: Vec<u8>)
    ensures
        values@ == symbol_values(input@),
{
    let mut values: Vec<u8> = Vec::new();
    for c in it: input.chars()
        invariant
            it.seq() == input@,
            values@ == symbol_values(input@.take(it.index())),
    {
        proof {
            input@.lemma_filter_map_take_succ(value_of(), it.index());
        }
        match get_char_position(c) {
            Some(value) => {
                values.push(value);
            },
            None => {},
        }
    }
    assert(input@.take(input@.len() as int) =~= input@);
    values
}

/// Puts the 6-bit values `values` together to bytes, four values at a time.
/// A last group of two or three values gives one or two bytes. A last group
/// of one value is refused.
pub fn decode_values(values: &[u8]) -> (result: Result<Vec<u8>, DecodeError>)
    ensures
        result is Err <==> values@.len() % 4 == 1,
        result matches Err(e) ==> e == DecodeError::MalformedEncoding,
        result matches Ok(bytes) ==> bytes@ == octets(values@),
{
    let n = values.len();
    if n % 4 == 1 {
        return Err(DecodeError::MalformedEncoding);
    }
    let mut bytes: Vec<u8> = Vec::new();
    let mut i: usize = 0;
    while i < n
        invariant
            n == values@.len(),
            n % 4 != 1,
            i <= n,
            i < n ==> i % 4 == 0,
            bytes@.len() == octet_count(i as nat),
            forall|k: int| 0 <= k < bytes@.len() ==> bytes@[k] == octet(values@, k),
        decreases n - i,
    {
        let rest = n - i;
        let a = values[i];
        let b = values[i + 1];
        bytes.push((a << 2) | (b >> 4));
        if rest > 2 {
            let c = values[i + 2];
            bytes.push((b << 4) | (c >> 2));
            if rest > 3 {
                let d = values[i + 3];
                bytes.push((c << 6) | d);
            }
        }
        i += if rest > 4 {
            4
        } else {
            rest
        };
    }
    Ok(bytes)
}

/// Decodes `input`. Text of the standard alphabet and text of the URL-safe
/// alphabet are both read.
pub fn base64_decode(input: &str) -> (result: Result<Vec<u8>, DecodeError>)
    ensures
        result is Err <==> symbol_values(input@).len() % 4 == 1,
        match result {
            Ok(bytes) => decoded_text(input@) == Ok::<Seq<u8>, DecodeError>(bytes@),
            Err(e) => decoded_text(input@) == Err::<Seq<u8>, DecodeError>(e),
        },
{
    let values = read_symbols(input);
    decode_values(values.as_slice())
}

/// Decodes `input`, the counterpart of encoding over the URL-safe alphabet.
/// Reading does not depend on the alphabet, so this gives what
/// `base64_decode` gives.
pub fn base64url_decode(input: &str) -> (result: Result<Vec<u8>, DecodeError>)
    ensures
        result is Err <==> symbol_values(input@).len() % 4 == 1,
        match result {
            Ok(bytes) => decoded_text(input@) == Ok::<Seq<u8>, DecodeError>(bytes@),
            Err(e) => decoded_text(input@) == Err::<Seq<u8>, DecodeError>(e),
        },
{
    base64_decode(input)
}

} // verus!

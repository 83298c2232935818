//! Encoding: bytes to text.

use crate::alphabet::{alphabet, get_base64_chars, get_base64url_chars, Variant, PAD};
use crate::packing::{lemma_fields_fit, sextet, sextet_count};
use vstd::prelude::*;

verus! {

/// `String::push` of the standard library appends one character to the end
/// of the string and leaves the characters before it as they were.
pub assume_specification[ String::push ](s: &mut String, ch: char)
    ensures
        final(s)@ == old(s)@.push(ch),
;

/// Length of the text that encodes `n` bytes: four characters for each
/// started group of three bytes with padding, and one character for each
/// 6-bit field without.
pub open spec fn encoded_len(n: nat, padding: bool) -> nat {
    if padding {
        (n + 2) / 3 * 4
    } else {
        sextet_count(n)
    }
}

/// The text that encodes `bytes` over the table `table`: the character of
/// each 6-bit field in turn, followed by the padding, if it is asked for.
pub open spec fn encoded_text(table: Seq<u8>, bytes: Seq<u8>, padding: bool) -> Seq<char> {
    Seq::new(
        encoded_len(bytes.len(), padding),
        |j: int|
            if j < sextet_count(bytes.len()) {
                table[sextet(bytes, j) as int] as char
            } else {
                PAD
            },
    )
}

/// Encodes `input` over the table `base_chars`, three bytes at a time. A last
/// group of one or two bytes gives two or three characters, and is filled up
/// to four with the padding character if `padding` is set.
pub fn base_encode(base_chars: &[u8; 64], input: &[u8], padding: bool) -> (result: String)
    ensures
        result@ == encoded_text(base_chars@, input@, padding),
        padding ==> result@.len() == (input@.len() + 2) / 3 * 4,
        !padding ==> result@.len() == (4 * input@.len() + 2) / 3,
{
    let n = input.len();
    let ghost text = encoded_text(base_chars@, input@, padding);
    let mut result = String::new();
    let mut i: usize = 0;
    while i < n
        invariant
            n == input@.len(),
            text == encoded_text(base_chars@, input@, padding),
            i <= n,
            i < n ==> i % 3 == 0,
            result@.len() == encoded_len(i as nat, padding),
            forall|j: int| 0 <= j < result@.len() ==> result@[j] == text[j],
        decreases n - i,
    {
        let rest = n - i;
        let byte_1 = input[i];
        let byte_2: u8 = if rest > 1 {
            input[i + 1]
        } else {
            0
        };
        let byte_3: u8 = if rest > 2 {
            input[i + 2]
        } else {
            0
        };
        proof {
            lemma_fields_fit(byte_1, byte_2, byte_3);
        }

        let a = byte_1 >> 2;
        result.push(base_chars[a as usize] as char);

        let b = ((byte_1 & 0x03) << 4) | (byte_2 >> 4);
        result.push(base_chars[b as usize] as char);

        if rest > 1 {
            let c = ((byte_2 & 0x0f) << 2) | (byte_3 >> 6);
            result.push(base_chars[c as usize] as char);
        } else if padding {
            result.push(PAD);
        }
        if rest > 2 {
            let d = byte_3 & 0x3f;
            result.push(base_chars[d as usize] as char);
        } else if padding {
            result.push(PAD);
        }
        i += if rest > 3 {
            3
        } else {
            rest
        };
    }
    result
}

/// Encodes `input` over the standard alphabet.
pub fn base64_encode(input: &[u8], padding: bool) -> (result: String)
    ensures
        result@ == encoded_text(alphabet(Variant::Standard), input@, padding),
        padding ==> result@.len() == (input@.len() + 2) / 3 * 4,
        !padding ==> result@.len() == (4 * input@.len() + 2) / 3,
{
    let base_chars = get_base64_chars();
    base_encode(&base_chars, input, padding)
}

/// Encodes `input` over the URL-safe alphabet.
pub fn base64url_encode(input: &[u8], padding: bool) -> (result: String)
    ensures
        result@ == encoded_text(alphabet(Variant::UrlSafe), input@, padding),
        padding ==> result@.len() == (input@.len() + 2) / 3 * 4,
        !padding ==> result@.len() == (4 * input@.len() + 2) / 3,
{
    let base_chars = get_base64url_chars();
    base_encode(&base_chars, input, padding)
}

} // verus!

//! The two 64-entry alphabets and the lookup of a symbol's 6-bit value.
//!
//! An alphabet is an ordered table of 64 distinct printable ASCII characters.
//! Position `i` of the table is the character that stands for the 6-bit value
//! `i`. Both alphabets share their first 62 entries and differ in the last two.
//!
//! Writing goes by one table. Reading is lenient and takes the symbols of
//! both: `+` and `-` stand for 62, `/` and `_` for 63.

use vstd::prelude::*;

verus! {

/// Number of entries of an alphabet.
pub const CHARS_LEN: usize = 64;

/// The character that fills an encoded text up to a multiple of four.
pub const PAD: char = '=';

/// Which of the two alphabets is meant.
#[derive(Clone, Copy, Debug, PartialEq, Eq, Structural)]
pub enum Variant {
    /// `+` and `/` at positions 62 and 63.
    Standard,
    /// `-` and `_` at positions 62 and 63.
    UrlSafe,
}

/// The character at position `i` of the part that both alphabets share:
/// `A`..`Z`, then `a`..`z`, then `0`..`9`.
pub open spec fn base_symbol(i: int) -> u8
    recommends
        0 <= i < 62,
{
    if i < 26 {
        ('A' as u8 + i) as u8
    } else if i < 52 {
        ('a' as u8 + (i - 26)) as u8
    } else {
        ('0' as u8 + (i - 52)) as u8
    }
}

/// The character at position `i` of the alphabet `variant`.
pub open spec fn symbol(variant: Variant, i: int) -> u8
    recommends
        0 <= i < 64,
{
    if i < 62 {
        base_symbol(i)
    } else if i == 62 {
        match variant {
            Variant::Standard => '+' as u8,
            Variant::UrlSafe => '-' as u8,
        }
    } else {
        match variant {
            Variant::Standard => '/' as u8,
            Variant::UrlSafe => '_' as u8,
        }
    }
}

/// The alphabet `variant` as a table: 64 characters, indexed by 6-bit value.
pub open spec fn alphabet(variant: Variant) -> Seq<u8> {
    Seq::new(64, |i: int| symbol(variant, i))
}

/// True where `b` is a symbol: a character of one of the two alphabets.
pub open spec fn is_symbol(b: u8) -> bool {
    alphabet(Variant::Standard).contains(b) || alphabet(Variant::UrlSafe).contains(b)
}

/// The 6-bit value that the byte `b` stands for: its index in the alphabet
/// that holds it, or `None` where neither alphabet does. A byte that both
/// alphabets hold has the same index in both.
pub open spec fn position(b: u8) -> Option<u8> {
    if alphabet(Variant::Standard).contains(b) {
        Some(alphabet(Variant::Standard).index_of(b) as u8)
    } else if alphabet(Variant::UrlSafe).contains(b) {
        Some(alphabet(Variant::UrlSafe).index_of(b) as u8)
    } else {
        None
    }
}

/// The 6-bit value that the character `c` stands for, or `None` where `c` is
/// no symbol of either alphabet.
pub open spec fn char_position(c: char) -> Option<u8> {
    if c as u32 <= 0x7f {
        position(c as u8)
    } else {
        None
    }
}

/// An alphabet is a bijection between the values 0..64 and its characters:
/// no character occurs twice, and `position` gives each character of the
/// table its index. A byte that has a position is the entry at that index of
/// one of the two tables. Every character is printable ASCII, and none is the
/// padding character.
pub proof fn lemma_alphabet_is_bijection(variant: Variant)
    ensures
        alphabet(variant).len() == 64,
        alphabet(variant).no_duplicates(),
        forall|i: int| 0 <= i < 64 ==> #[trigger] position(alphabet(variant)[i]) == Some(i as u8),
        forall|b: u8|
            (#[trigger] position(b)) matches Some(v) ==> v < 64 && (alphabet(
                Variant::Standard,
            )[v as int] == b || alphabet(Variant::UrlSafe)[v as int] == b),
        forall|i: int| 0 <= i < 64 ==> 0x20 < #[trigger] alphabet(variant)[i] < 0x7f,
        forall|i: int| 0 <= i < 64 ==> #[trigger] alphabet(variant)[i] as char != PAD,
{
    let table = alphabet(variant);
    let standard = alphabet(Variant::Standard);
    let url_safe = alphabet(Variant::UrlSafe);
    assert forall|i: int, j: int| 0 <= i < 64 && 0 <= j < 64 && i != j implies table[i]
        != table[j] by {}
    assert forall|i: int| 0 <= i < 64 implies #[trigger] position(table[i]) == Some(i as u8) by {
        assert(table.contains(table[i]));
        if standard.contains(table[i]) {
            let k = standard.index_of(table[i]);
            assert(standard[k] == table[i]);
        } else {
            let k = url_safe.index_of(table[i]);
            assert(url_safe[k] == table[i]);
        }
    }
    assert forall|b: u8| (#[trigger] position(b)) is Some implies position(b)->0 < 64 && (
        standard[position(b)->0 as int] == b || url_safe[position(b)->0 as int] == b
    ) by {}
}

/// The symbols are the letters, the digits and the four characters `+`, `/`,
/// `-` and `_`. The first of each pair stands for 62 and 63 in the standard
/// alphabet, the second in the URL-safe one, and reading takes both.
pub proof fn lemma_symbols(b: u8)
    ensures
        is_symbol(b) <==> position(b) is Some,
        is_symbol(b) <==> 'A' as u8 <= b <= 'Z' as u8 || 'a' as u8 <= b <= 'z' as u8 || '0' as u8
            <= b <= '9' as u8 || b == '+' as u8 || b == '/' as u8 || b == '-' as u8 || b
            == '_' as u8,
        'A' as u8 <= b <= 'Z' as u8 ==> position(b) == Some((b - 'A' as u8) as u8),
        'a' as u8 <= b <= 'z' as u8 ==> position(b) == Some((b - 'a' as u8 + 26) as u8),
        '0' as u8 <= b <= '9' as u8 ==> position(b) == Some((b - '0' as u8 + 52) as u8),
        b == '+' as u8 || b == '-' as u8 ==> position(b) == Some(62u8),
        b == '/' as u8 || b == '_' as u8 ==> position(b) == Some(63u8),
{
    let standard = alphabet(Variant::Standard);
    let url_safe = alphabet(Variant::UrlSafe);
    lemma_alphabet_is_bijection(Variant::Standard);
    lemma_alphabet_is_bijection(Variant::UrlSafe);
    if 'A' as u8 <= b <= 'Z' as u8 {
        assert(standard[b - 'A' as u8] == b);
    } else if 'a' as u8 <= b <= 'z' as u8 {
        assert(standard[b - 'a' as u8 + 26] == b);
    } else if '0' as u8 <= b <= '9' as u8 {
        assert(standard[b - '0' as u8 + 52] == b);
    } else if b == '+' as u8 {
        assert(standard[62] == b);
    } else if b == '/' as u8 {
        assert(standard[63] == b);
    } else if b == '-' as u8 {
        assert(url_safe[62] == b);
    } else if b == '_' as u8 {
        assert(url_safe[63] == b);
    } else {
        assert forall|i: int| 0 <= i < 64 implies standard[i] != b && url_safe[i] != b by {}
    }
}

/// The two alphabets agree on positions 0..62. They differ at 62 and 63:
/// `+` and `/` in the standard alphabet, `-` and `_` in the URL-safe one.
pub proof fn lemma_variants_differ_in_last_two()
    ensures
        forall|i: int|
            0 <= i < 62 ==> #[trigger] alphabet(Variant::Standard)[i] == alphabet(
                Variant::UrlSafe,
            )[i],
        alphabet(Variant::Standard)[62] as char == '+',
        alphabet(Variant::Standard)[63] as char == '/',
        alphabet(Variant::UrlSafe)[62] as char == '-',
        alphabet(Variant::UrlSafe)[63] as char == '_',
{
}

/// The shared part of both alphabets; the last two entries are left zero.
pub fn get_base_chars() -> (result: [u8; 64])
    ensures
        forall|i: int| 0 <= i < 62 ==> result@[i] == base_symbol(i),
        result@[62] == 0,
        result@[63] == 0,
{
    let mut result = [0u8; 64];
    let mut i: u8 = 0;
    while i < 26
        invariant
            i <= 26,
            forall|k: int| 0 <= k < i ==> result@[k] == base_symbol(k),
            forall|k: int| i <= k < 64 ==> result@[k] == 0,
        decreases 26 - i,
    {
        result[i as usize] = i + 'A' as u8;
        i += 1;
    }
    let mut i: u8 = 0;
    while i < 26
        invariant
            i <= 26,
            forall|k: int| 0 <= k < 26 + i ==> result@[k] == base_symbol(k),
            forall|k: int| 26 + i <= k < 64 ==> result@[k] == 0,
        decreases 26 - i,
    {
        result[(26 + i) as usize] = i + 'a' as u8;
        i += 1;
    }
    let mut i: u8 = 0;
    while i < 10
        invariant
            i <= 10,
            forall|k: int| 0 <= k < 52 + i ==> result@[k] == base_symbol(k),
            forall|k: int| 52 + i <= k < 64 ==> result@[k] == 0,
        decreases 10 - i,
    {
        result[(52 + i) as usize] = i + '0' as u8;
        i += 1;
    }
    result
}

/// The table of the standard alphabet.
pub fn get_base64_chars() -> (result: [u8; 64])
    ensures
        result@ == alphabet(Variant::Standard),
{
    let mut result = get_base_chars();
    result[CHARS_LEN - 2] = '+' as u8;
    result[CHARS_LEN - 1] = '/' as u8;
    result
}

/// The table of the URL-safe alphabet.
pub fn get_base64url_chars() -> (result: [u8; 64])
    ensures
        result@ == alphabet(Variant::UrlSafe),
{
    let mut result = get_base_chars();
    result[CHARS_LEN - 2] = '-' as u8;
    result[CHARS_LEN - 1] = '_' as u8;
    result
}

/// Looks up the 6-bit value of the byte `b`. The symbols of both alphabets
/// are taken: `+` and `-` give 62, `/` and `_` give 63.
pub fn get_position(b: u8) -> (result: Option<u8>)
    ensures
        result == position(b),
        result is Some <==> is_symbol(b),
        result matches Some(v) ==> v < 64,
{
    proof {
        lemma_symbols(b);
    }
    let ch: u8 = if 'A' as u8 <= b && b <= 'Z' as u8 {
        b - 'A' as u8
    } else if 'a' as u8 <= b && b <= 'z' as u8 {
        b - 'a' as u8 + 26
    } else if '0' as u8 <= b && b <= '9' as u8 {
        b - '0' as u8 + 52
    } else if b == '-' as u8 || b == '+' as u8 {
        62
    } else if b == '_' as u8 || b == '/' as u8 {
        63
    } else {
        return None;
    };
    Some(ch)
}

/// Looks up the 6-bit value of the character `c`.
pub fn get_char_position(c: char) -> (result: Option<u8>)
    ensures
        result == char_position(c),
        result matches Some(v) ==> v < 64,
{
    if c as u32 <= 0x7f {
        get_position(c as u8)
    } else {
        None
    }
}

} // verus!

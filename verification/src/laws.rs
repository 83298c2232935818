//! What holds of encoding and decoding together.

use crate::alphabet::{alphabet, char_position, lemma_alphabet_is_bijection, Variant, PAD};
use crate::decode::{decoded_text, symbol_values, DecodeError};
use crate::encode::encoded_text;
use crate::packing::{
    lemma_counts, lemma_octets_of_sextets, lemma_sextet_fits, sextet_count, sextets,
};
use vstd::prelude::*;

verus! {

/// True where no character of `text` is a symbol of either alphabet.
pub open spec fn is_foreign(text: Seq<char>) -> bool {
    forall|i: int| 0 <= i < text.len() ==> char_position(#[trigger] text[i]) is None
}

/// The text made of the characters that stand for `values` in `table`.
pub open spec fn symbols_of(table: Seq<u8>, values: Seq<u8>) -> Seq<char> {
    Seq::new(values.len(), |j: int| table[values[j] as int] as char)
}

/// The symbols of two texts in a row are the symbols of the first, then
/// those of the second.
pub proof fn lemma_symbol_values_concat(a: Seq<char>, b: Seq<char>)
    ensures
        symbol_values(a + b) == symbol_values(a) + symbol_values(b),
    decreases b.len(),
{
    if b.len() == 0 {
        assert(a + b =~= a);
        assert(symbol_values(a) + symbol_values(b) =~= symbol_values(a));
    } else {
        lemma_symbol_values_concat(a, b.drop_last());
        assert((a + b).drop_last() =~= a + b.drop_last());
        assert(symbol_values(a + b) =~= symbol_values(a) + symbol_values(b));
    }
}

/// A text without any symbol has no symbol values.
pub proof fn lemma_symbol_values_of_foreign(text: Seq<char>)
    requires
        is_foreign(text),
    ensures
        symbol_values(text) == Seq::<u8>::empty(),
    decreases text.len(),
{
    if text.len() > 0 {
        lemma_symbol_values_of_foreign(text.drop_last());
    }
}

/// Reading the characters that stand for some 6-bit values in one of the
/// alphabets gives the values back.
pub proof fn lemma_symbol_values_of_symbols(variant: Variant, values: Seq<u8>)
    requires
        forall|j: int| 0 <= j < values.len() ==> values[j] < 64,
    ensures
        symbol_values(symbols_of(alphabet(variant), values)) == values,
    decreases values.len(),
{
    let text = symbols_of(alphabet(variant), values);
    if values.len() > 0 {
        let init = values.drop_last();
        lemma_symbol_values_of_symbols(variant, init);
        assert(text.drop_last() =~= symbols_of(alphabet(variant), init));
        lemma_alphabet_is_bijection(variant);
    }
}

/// An encoded text is the characters of the 6-bit fields, then a run of
/// padding characters that fills it up to its length.
pub proof fn lemma_encoded_text_parts(table: Seq<u8>, bytes: Seq<u8>, padding: bool)
    ensures
        encoded_text(table, bytes, false) == symbols_of(table, sextets(bytes)),
        encoded_text(table, bytes, padding) == encoded_text(table, bytes, false) + Seq::new(
            (encoded_text(table, bytes, padding).len() - sextet_count(bytes.len())) as nat,
            |j: int| PAD,
        ),
{
    lemma_counts(bytes.len());
    assert(encoded_text(table, bytes, padding) =~= encoded_text(table, bytes, false) + Seq::new(
        (encoded_text(table, bytes, padding).len() - sextet_count(bytes.len())) as nat,
        |j: int| PAD,
    ));
}

/// Whether an encoded text carries padding makes no difference to what it
/// decodes to, whatever table it was encoded over.
pub proof fn lemma_padding_is_ignored(table: Seq<u8>, bytes: Seq<u8>)
    ensures
        decoded_text(encoded_text(table, bytes, true)) == decoded_text(
            encoded_text(table, bytes, false),
        ),
{
    let bare = encoded_text(table, bytes, false);
    let pads = Seq::new(
        (encoded_text(table, bytes, true).len() - sextet_count(bytes.len())) as nat,
        |j: int| PAD,
    );
    lemma_encoded_text_parts(table, bytes, true);
    lemma_alphabet_is_bijection(Variant::Standard);
    assert(is_foreign(pads));
    lemma_symbol_values_of_foreign(pads);
    lemma_symbol_values_concat(bare, pads);
}

/// Decoding an encoded text gives the bytes back, with padding and without.
/// This holds of text written over the standard alphabet and of text written
/// over the URL-safe alphabet alike.
pub proof fn lemma_decode_encode(variant: Variant, bytes: Seq<u8>, padding: bool)
    ensures
        decoded_text(encoded_text(alphabet(variant), bytes, padding)) == Ok::<
            Seq<u8>,
            DecodeError,
        >(bytes),
{
    let table = alphabet(variant);
    let values = sextets(bytes);
    lemma_padding_is_ignored(table, bytes);
    lemma_encoded_text_parts(table, bytes, false);
    assert forall|j: int| 0 <= j < values.len() implies values[j] < 64 by {
        lemma_sextet_fits(bytes, j);
    }
    lemma_symbol_values_of_symbols(variant, values);
    lemma_counts(bytes.len());
    lemma_octets_of_sextets(bytes);
}

/// Characters that are no symbols are passed over wherever they stand: a
/// text decodes as it would without them.
pub proof fn lemma_foreign_is_ignored(before: Seq<char>, foreign: Seq<char>, after: Seq<char>)
    requires
        is_foreign(foreign),
    ensures
        decoded_text(before + foreign + after) == decoded_text(before + after),
{
    lemma_symbol_values_of_foreign(foreign);
    lemma_symbol_values_concat(before, foreign);
    lemma_symbol_values_concat(before + foreign, after);
    lemma_symbol_values_concat(before, after);
    assert(symbol_values(before) + symbol_values(foreign) =~= symbol_values(before));
}

} // verus!

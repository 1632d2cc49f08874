//! Validation of texts in the classical notation.

use vstd::prelude::*;
pub use crate::charset::check_ascii;
use crate::charset::{charset_defect, check_characters};
use crate::diacritics::{check_diacritics, order_defect};
pub use crate::validation::ValidationError;
use crate::validation::{check, first_defect, outcome, Alphabet, AlphabetModel};

verus! {

/// The tables of the classical notation: the consonants behind which no marker
/// may stand, the markers, and every character a text may hold.
pub open spec fn alphabet() -> AlphabetModel {
    AlphabetModel {
        consonants: "bcdghjklmprstvzGHJLMS"@,
        markers: "/\\="@,
        accepted: "abcdeghijklmnoprstuvzAGHIJLMNRSU/\\\n-| '"@,
    }
}

/// The tables of the classical notation.
pub fn tables() -> (out: Alphabet)
    ensures
        out@ == alphabet(),
{
    Alphabet {
        consonants: crate::text::to_chars("bcdghjklmprstvzGHJLMS"),
        markers: crate::text::to_chars("/\\="),
        accepted: crate::text::to_chars("abcdeghijklmnoprstuvzAGHIJLMNRSU/\\\n-| '"),
    }
}

/// Rejects `input` where a consonant stands immediately before a marker,
/// listing every such pair from left to right.
pub fn diacritics_ordered(input: &str) -> (result: Result<(), ValidationError>)
    ensures
        outcome(result) == order_defect(input@, alphabet().consonants, alphabet().markers),
{
    let tables = tables();
    check_diacritics(input, &tables.consonants, &tables.markers)
}

/// Rejects `input` where it holds a character outside the accepted set,
/// listing each such character once, in order of first occurrence.
pub fn standard_characteres(input: &str) -> (result: Result<(), ValidationError>)
    ensures
        outcome(result) == charset_defect(input@, alphabet().accepted),
{
    let tables = tables();
    check_characters(input, &tables.accepted)
}

/// Validates `input`: it must be ASCII, then free of markers behind consonants,
/// then made of accepted characters only. The first of the three that fails is
/// the error; `Ok` means all three hold.
pub fn validate(input: &str) -> (result: Result<(), ValidationError>)
    ensures
        outcome(result) == first_defect(input@, alphabet()),
{
    let tables = tables();
    check(input, &tables)
}

} // verus!

//! Classifying a text against a notation: is it ASCII, do its accent markers
//! stand where they may, and does it stay within the accepted characters.

use vstd::prelude::*;
use crate::charset::{
    all_accepted, ascii, ascii_defect, charset_defect, check_ascii, check_characters, first_index,
    lemma_offending, offending,
};
use crate::diacritics::{
    check_diacritics, lemma_misplaced_pairs_empty, misplaced_at, misplaced_pairs, order_defect,
};

verus! {

/// Why a text was rejected.
#[derive(Debug, PartialEq, Eq)]
pub enum ValidationError {
    /// The characters beyond ASCII, each once, in order of first occurrence.
    NotASCII(Vec<char>),
    /// The characters outside the accepted set, each once, in order of first
    /// occurrence.
    InvalidChars(Vec<char>),
    /// Every consonant-and-marker pair, left to right, repeats included.
    InvalidDiacriticOrder(Vec<String>),
}

/// What a [`ValidationError`] stands for.
pub ghost enum Defect {
    NotASCII(Seq<char>),
    InvalidChars(Seq<char>),
    InvalidDiacriticOrder(Seq<Seq<char>>),
}

impl View for ValidationError {
    type V = Defect;

    open spec fn view(&self) -> Defect {
        match self {
            ValidationError::NotASCII(chars) => Defect::NotASCII(chars@),
            ValidationError::InvalidChars(chars) => Defect::InvalidChars(chars@),
            ValidationError::InvalidDiacriticOrder(pairs) => Defect::InvalidDiacriticOrder(
                pairs.deep_view(),
            ),
        }
    }
}

/// The tables a notation is checked against.
pub struct Alphabet {
    /// Characters that carry no accent: a marker may not follow them.
    pub consonants: Vec<char>,
    /// The accent markers.
    pub markers: Vec<char>,
    /// Every character a text may contain.
    pub accepted: Vec<char>,
}

/// What an [`Alphabet`] stands for.
pub ghost struct AlphabetModel {
    pub consonants: Seq<char>,
    pub markers: Seq<char>,
    pub accepted: Seq<char>,
}

impl View for Alphabet {
    type V = AlphabetModel;

    open spec fn view(&self) -> AlphabetModel {
        AlphabetModel {
            consonants: self.consonants@,
            markers: self.markers@,
            accepted: self.accepted@,
        }
    }
}

/// The first defect of `text`, the checks taken in their fixed order: ASCII,
/// then marker placement, then the accepted characters. `None` where all three
/// pass.
pub open spec fn first_defect(text: Seq<char>, alphabet: AlphabetModel) -> Option<Defect> {
    if ascii_defect(text) is Some {
        ascii_defect(text)
    } else if order_defect(text, alphabet.consonants, alphabet.markers) is Some {
        order_defect(text, alphabet.consonants, alphabet.markers)
    } else {
        charset_defect(text, alphabet.accepted)
    }
}

/// The defect that a check's result reports, if any.
pub open spec fn outcome(result: Result<(), ValidationError>) -> Option<Defect> {
    match result {
        Ok(_) => None,
        Err(e) => Some(e@),
    }
}

/// A text is valid exactly when it is ASCII throughout, no consonant in it
/// stands immediately before a marker, and all of its characters are accepted.
pub proof fn lemma_valid_iff_clean(text: Seq<char>, alphabet: AlphabetModel)
    ensures
        first_defect(text, alphabet) is None <==> {
            &&& forall|i: int| 0 <= i < text.len() ==> #[trigger] text[i] <= '\u{7f}'
            &&& forall|i: int|
                0 <= i < text.len() - 1 ==> !(alphabet.consonants.contains(#[trigger] text[i])
                    && alphabet.markers.contains(text[i + 1]))
            &&& forall|i: int|
                0 <= i < text.len() ==> alphabet.accepted.contains(#[trigger] text[i])
        },
{
    let is_ascii = forall|i: int| 0 <= i < text.len() ==> #[trigger] text[i] <= '\u{7f}';
    let is_ordered = forall|i: int|
        0 <= i < text.len() - 1 ==> !(alphabet.consonants.contains(#[trigger] text[i])
            && alphabet.markers.contains(text[i + 1]));
    let is_accepted = forall|i: int|
        0 <= i < text.len() ==> alphabet.accepted.contains(#[trigger] text[i]);
    assert(is_ascii <==> all_accepted(text, ascii())) by {
        if is_ascii {
            assert forall|i: int| 0 <= i < text.len() implies ascii().contains(
                #[trigger] text[i],
            ) by {}
        }
        if all_accepted(text, ascii()) {
            assert forall|i: int| 0 <= i < text.len() implies #[trigger] text[i] <= '\u{7f}' by {
                assert(ascii().contains(text[i]));
            }
        }
    }
    assert(is_ordered <==> misplaced_pairs(text, alphabet.consonants, alphabet.markers).len()
        == 0) by {
        lemma_misplaced_pairs_empty(text, alphabet.consonants, alphabet.markers);
        if is_ordered {
            assert forall|i: int| !misplaced_at(
                text,
                i,
                alphabet.consonants,
                alphabet.markers,
            ) by {
                if 0 <= i < text.len() - 1 {
                    assert(!(alphabet.consonants.contains(text[i]) && alphabet.markers.contains(
                        text[i + 1],
                    )));
                }
            }
        }
        if forall|i: int| !misplaced_at(text, i, alphabet.consonants, alphabet.markers) {
            assert forall|i: int| 0 <= i < text.len() - 1 implies !(alphabet.consonants.contains(
                #[trigger] text[i],
            ) && alphabet.markers.contains(text[i + 1])) by {
                assert(!misplaced_at(text, i, alphabet.consonants, alphabet.markers));
            }
        }
    }
    assert(is_accepted <==> all_accepted(text, alphabet.accepted.to_set())) by {
        if is_accepted {
            assert forall|i: int| 0 <= i < text.len() implies alphabet.accepted.to_set().contains(
                #[trigger] text[i],
            ) by {
                assert(alphabet.accepted.contains(text[i]));
            }
        }
        if all_accepted(text, alphabet.accepted.to_set()) {
            assert forall|i: int| 0 <= i < text.len() implies alphabet.accepted.contains(
                #[trigger] text[i],
            ) by {
                assert(alphabet.accepted.to_set().contains(text[i]));
            }
        }
    }
}

/// A text that holds a character beyond ASCII is rejected as not ASCII, whatever
/// else is wrong with it: marker placement and the accepted characters are not
/// consulted. The error lists exactly the characters of the text beyond ASCII,
/// none of them twice, ordered by where each first occurs.
pub proof fn lemma_non_ascii_reported(text: Seq<char>, alphabet: AlphabetModel)
    requires
        exists|i: int| 0 <= i < text.len() && text[i] > '\u{7f}',
    ensures
        first_defect(text, alphabet) matches Some(Defect::NotASCII(listed)) && {
            &&& listed == offending(text, ascii())
            &&& listed.no_duplicates()
            &&& forall|c: char| #[trigger] listed.contains(c) <==> text.contains(c) && c > '\u{7f}'
            &&& forall|i: int, j: int|
                0 <= i < j < listed.len() ==> first_index(text, #[trigger] listed[i])
                    < first_index(text, #[trigger] listed[j])
        },
{
    let i = choose|i: int| 0 <= i < text.len() && text[i] > '\u{7f}';
    assert(!ascii().contains(text[i]));
    lemma_offending(text, ascii());
    let listed = offending(text, ascii());
    assert forall|c: char| #[trigger] listed.contains(c) <==> text.contains(c) && c
        > '\u{7f}' by {
        assert(ascii().contains(c) <==> c <= '\u{7f}');
    }
}

/// The checks are taken in order, and the first that fails decides: a text
/// that is ASCII with a consonant immediately before a marker is rejected for
/// its marker placement, whether or not all of its characters are accepted.
pub proof fn lemma_order_before_charset(text: Seq<char>, alphabet: AlphabetModel, i: int)
    requires
        all_accepted(text, ascii()),
        misplaced_at(text, i, alphabet.consonants, alphabet.markers),
    ensures
        first_defect(text, alphabet) == Some(
            Defect::InvalidDiacriticOrder(
                misplaced_pairs(text, alphabet.consonants, alphabet.markers),
            ),
        ),
{
    lemma_misplaced_pairs_empty(text, alphabet.consonants, alphabet.markers);
}

/// Checks `input` against `alphabet`: the ASCII check, then marker
/// placement, then the accepted characters. The first check that fails decides
/// the error; the text is valid where all three pass.
pub fn check(input: &str, alphabet: &Alphabet) -> (result: Result<(), ValidationError>)
    ensures
        outcome(result) == first_defect(input@, alphabet@),
{
    match check_ascii(input) {
        Err(e) => Err(e),
        Ok(()) => match check_diacritics(input, &alphabet.consonants, &alphabet.markers) {
            Err(e) => Err(e),
            Ok(()) => check_characters(input, &alphabet.accepted),
        },
    }
}

} // verus!

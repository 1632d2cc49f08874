//! Converting a text under one of two policies: the lenient one lets misplaced
//! markers pass, the strict one lets nothing pass.

use vstd::prelude::*;
use crate::iasthk::converter::{convert, converted};
use crate::iasthk::validator::{alphabet, validate};
use crate::validation::{first_defect, Defect, ValidationError};

verus! {

/// What a conversion under a policy returns: the converted text, or the defect
/// that stopped it.
pub open spec fn line_outcome(
    result: Result<String, ValidationError>,
) -> Result<Seq<char>, Defect> {
    match result {
        Ok(text) => Ok(text@),
        Err(e) => Err(e@),
    }
}

/// The lenient policy: a text whose only defect is the placement of its markers
/// is converted all the same; any other defect stops the conversion.
pub open spec fn lenient(text: Seq<char>) -> Result<Seq<char>, Defect> {
    match first_defect(text, alphabet()) {
        None => Ok(converted(text)),
        Some(Defect::InvalidDiacriticOrder(_)) => Ok(converted(text)),
        Some(defect) => Err(defect),
    }
}

/// The strict policy: only a valid text is converted.
pub open spec fn strict(text: Seq<char>) -> Result<Seq<char>, Defect> {
    match first_defect(text, alphabet()) {
        None => Ok(converted(text)),
        Some(defect) => Err(defect),
    }
}

/// Converts `input` under the lenient policy.
pub fn convert_line(input: String) -> (result: Result<String, ValidationError>)
    ensures
        line_outcome(result) == lenient(input@),
{
    match validate(input.as_str()) {
        Ok(()) => Ok(convert(input.as_str())),
        Err(e) => match e {
            ValidationError::InvalidDiacriticOrder(_) => Ok(convert(input.as_str())),
            _ => Err(e),
        },
    }
}

/// Converts `input` under the strict policy.
pub fn convert_line_strict(input: String) -> (result: Result<String, ValidationError>)
    ensures
        line_outcome(result) == strict(input@),
{
    match validate(input.as_str()) {
        Ok(()) => Ok(convert(input.as_str())),
        Err(e) => Err(e),
    }
}

/// The two policies part only on misplaced markers: whatever the strict policy
/// converts, the lenient one converts to the same text, and whatever the
/// lenient policy rejects, the strict one rejects for the same defect.
pub proof fn lemma_policies_agree(text: Seq<char>)
    ensures
        strict(text) is Ok ==> lenient(text) == strict(text),
        lenient(text) is Err ==> strict(text) == lenient(text),
        lenient(text) != strict(text) ==> first_defect(text, alphabet()) matches Some(
            Defect::InvalidDiacriticOrder(_),
        ),
{
}

} // verus!

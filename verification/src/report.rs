//! The wording of a rejection.

use vstd::prelude::*;
use vstd::string::*;
use crate::validation::{Defect, ValidationError};

verus! {

/// The text that `{:?}` formatting gives for a list of characters. It is fixed
/// by the characters alone.
pub uninterp spec fn debug_chars(chars: Seq<char>) -> Seq<char>;

/// The text that `{:?}` formatting gives for a list of strings. It is fixed by
/// the strings alone.
pub uninterp spec fn debug_strings(items: Seq<Seq<char>>) -> Seq<char>;

/// Formats `chars` with `{:?}`, that is with the `Debug` impl of `Vec<char>`.
/// Trusted: the result is the rendering that `debug_chars` names.
#[verifier::external_body]
fn format_chars(chars: &Vec<char>) -> (out: String)
    ensures
        out@ == debug_chars(chars@),
{
    format!("{:?}", chars)
}

/// Formats `items` with `{:?}`, that is with the `Debug` impl of `Vec<String>`.
/// Trusted: the result is the rendering that `debug_strings` names.
#[verifier::external_body]
fn format_strings(items: &Vec<String>) -> (out: String)
    ensures
        out@ == debug_strings(items.deep_view()),
{
    format!("{:?}", items)
}

/// The words that open the message for each kind of defect.
pub open spec fn heading_of(defect: Defect) -> Seq<char> {
    match defect {
        Defect::NotASCII(_) => "Non ASCII chars "@,
        Defect::InvalidChars(_) => "Invalid characteres "@,
        Defect::InvalidDiacriticOrder(_) => "Invalid diacritic order: "@,
    }
}

/// The rendering of what a defect lists.
pub open spec fn listing_of(defect: Defect) -> Seq<char> {
    match defect {
        Defect::NotASCII(chars) => debug_chars(chars),
        Defect::InvalidChars(chars) => debug_chars(chars),
        Defect::InvalidDiacriticOrder(pairs) => debug_strings(pairs),
    }
}

/// The message of a defect: its heading, then what it lists.
pub open spec fn message_of(defect: Defect) -> Seq<char> {
    heading_of(defect) + listing_of(defect)
}

/// What a user is told ahead of the message: that the text is not ASCII, or
/// that it breaks the notation.
pub open spec fn explanation_of(defect: Defect) -> Seq<char> {
    match defect {
        Defect::NotASCII(_) => "Text passed is not in ASCII."@,
        Defect::InvalidChars(_) =>
            "Text passed violates ASCII Harvard-Kyoto standards as applied here."@,
        Defect::InvalidDiacriticOrder(_) =>
            "Text passed violates ASCII Harvard-Kyoto standards as applied here."@,
    }
}

impl ValidationError {
    /// The words that open the message of this error.
    pub fn heading(&self) -> (out: &'static str)
        ensures
            out@ == heading_of(self@),
    {
        match self {
            ValidationError::NotASCII(_) => "Non ASCII chars ",
            ValidationError::InvalidChars(_) => "Invalid characteres ",
            ValidationError::InvalidDiacriticOrder(_) => "Invalid diacritic order: ",
        }
    }

    /// The rendering of the characters or pairs that this error lists.
    pub fn listing(&self) -> (out: String)
        ensures
            out@ == listing_of(self@),
    {
        match self {
            ValidationError::NotASCII(chars) => format_chars(chars),
            ValidationError::InvalidChars(chars) => format_chars(chars),
            ValidationError::InvalidDiacriticOrder(pairs) => format_strings(pairs),
        }
    }

    /// The message of this error: its heading, then what it lists.
    pub fn message(&self) -> (out: String)
        ensures
            out@ == message_of(self@),
    {
        let mut out = String::from_str(self.heading());
        out.append(self.listing().as_str());
        out
    }

    /// What a user is told ahead of the message.
    pub fn explanation(&self) -> (out: &'static str)
        ensures
            out@ == explanation_of(self@),
    {
        match self {
            ValidationError::NotASCII(_) => "Text passed is not in ASCII.",
            ValidationError::InvalidChars(_) => {
                "Text passed violates ASCII Harvard-Kyoto standards as applied here."
            }
            ValidationError::InvalidDiacriticOrder(_) => {
                "Text passed violates ASCII Harvard-Kyoto standards as applied here."
            }
        }
    }

    /// The full diagnostic for a user: the explanation, and on a line of its
    /// own the message.
    pub fn diagnostic(&self) -> (out: String)
        ensures
            out@ == explanation_of(self@) + "\n"@ + message_of(self@),
    {
        let mut out = String::from_str(self.explanation());
        out.append("\n");
        out.append(self.message().as_str());
        out
    }
}

} // verus!

//! Unicode normalization of converted text.

use unicode_normalization::UnicodeNormalization;
use vstd::prelude::*;

verus! {

/// `text` in Unicode Normalization Form KC: compatibility decomposition
/// followed by canonical composition. The form is fixed by the Unicode
/// standard and depends on the characters of `text` alone.
pub uninterp spec fn nfkc(text: Seq<char>) -> Seq<char>;

/// Runs `unicode_normalization::UnicodeNormalization::nfkc` over the characters
/// of `input` and collects what the iterator yields. Trusted: the collected
/// string is the Form KC of `input`.
#[verifier::external_body]
fn nfkc_of(input: &str) -> (out: String)
    ensures
        out@ == nfkc(input@),
{
    input.nfkc().collect::<String>()
}

/// Normalizes `input` to Form KC, so that a base letter and the combining marks
/// behind it collapse into the precomposed letter wherever Unicode defines one.
pub fn normalize_unicode(input: &str) -> (out: String)
    ensures
        out@ == nfkc(input@),
{
    nfkc_of(input)
}

} // verus!

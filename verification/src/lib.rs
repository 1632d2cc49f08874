//! Harvard-Kyoto transliteration: ASCII notation for Sanskrit and Vedic text is
//! checked for well-formedness and rewritten into composed Unicode.

pub mod text;
pub mod rewrite;
pub mod normalize;
pub mod positions;
pub mod charset;
pub mod diacritics;
pub mod validation;
pub mod report;
pub mod iasthk;
pub mod vedichk;
pub mod line;

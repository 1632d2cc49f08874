//! The Vedic notation: Harvard-Kyoto with pitch accents into ISO-style letters.

pub mod converter;
pub mod validator;

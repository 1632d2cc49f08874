//! The classical notation: Harvard-Kyoto into IAST.

pub mod converter;
pub mod validator;

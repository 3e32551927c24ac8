//! Numbers written out in words, read into digits.
//!
//! A number expressed in words is a small program: each word is an
//! instruction for a [`digit_string::DigitString`], which builds the number in base 10
//! and refuses every step that would not lead to a well-formed number.
//! A language is a stateless value that turns words into such instructions
//! ([`lang::LangInterpreter`]); [`lang::Language`] gathers the languages that
//! ship with the library.

pub mod error;
pub mod numeral;
pub mod text;
pub mod digit_string;
pub mod lang;

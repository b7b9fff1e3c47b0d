//! A lexical scanner for a small dynamically-typed scripting language.
//!
//! The scanner turns a source text into the sequence of its tokens and a
//! list of diagnostics. What it produces is fixed by the grammar in
//! [`lexical`]: every executable function is proved to return exactly what
//! the grammar says.

pub mod token_type;
pub mod substring;
pub mod decimal;
pub mod token;
pub mod error;
pub mod lexical;
pub mod scanner;
pub mod laws;
pub mod rox;

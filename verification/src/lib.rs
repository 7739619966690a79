//! A lexical scanner for a small dynamically-typed scripting language.
//!
//! The scanner turns source text into a flat sequence of classified tokens,
//! ending with one end-of-input token, and collects a diagnostic for every
//! piece of input that begins no lexeme.
//!
//! - [`token_type`], [`token`] and [`diagnostic`] hold the data.
//! - [`grammar`] says, over sequences of characters, which lexeme begins at a
//!   position and what a whole source scans to.
//! - [`scanner`] is the scanner, proved to compute what [`grammar`] says.
//! - [`laws`] holds what follows for every source.
//! - [`expr`] holds the nodes of expression trees.

pub mod diagnostic;
pub mod expr;
pub mod grammar;
pub mod laws;
pub mod scanner;
pub mod text;
pub mod token;
pub mod token_type;

pub use diagnostic::{Diagnostic, ErrorKind};
pub use scanner::Scanner;
pub use token::{LiteralType, Token};
pub use token_type::TokenType;

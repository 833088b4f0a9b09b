//! Error types: the structured scan and parse errors the library returns,
//! and the plain diagnostic record handed to the surrounding driver.

use vstd::prelude::*;
use crate::token::TokenType;

verus! {

/// A lexical error. Scanning stops at the first such error; the partial
/// token sequence (terminated by `EOF`) is still produced.
#[derive(Debug, Clone, Copy, PartialEq, Eq, Structural)]
pub enum ScanError {
    /// End of input was reached inside a string literal. The position is
    /// that of the opening quote.
    UnterminatedString { line: usize, column: usize },
    /// A character that no token can begin with. The position is that of
    /// the character itself.
    UnexpectedCharacter { line: usize, column: usize, found: char },
    /// A number literal whose decimal point is not followed by a digit.
    /// The position is that of the literal's first character.
    InvalidNumber { line: usize, column: usize },
}

/// A parse error. Parsing stops at the first such error.
#[derive(Debug, Clone, Copy, PartialEq, Eq, Structural)]
pub enum ParseError {
    /// A required token kind was missing: a `)`, `;`, `}`, or the pieces of
    /// a declaration. The position is that of the token found instead.
    UnexpectedToken { expected: TokenType, found: TokenType, line: usize, column: usize },
    /// A token kind with no prefix handler stood where an expression was
    /// expected.
    NoPrefixHandler { found: TokenType, line: usize, column: usize },
    /// A `const` declaration without an initializer.
    ConstWithoutInitializer { line: usize, column: usize },
}

/// A plain diagnostic record: position, message, and an optional tip.
/// The surrounding driver formats and prints it; the library only builds it.
#[derive(Debug, PartialEq, Eq)]
pub struct Error {
    pub position: usize,
    pub line: usize,
    pub message: String,
    pub tip: String,
}

impl Error {
    /// Builds a diagnostic record from its parts.
    pub fn new(position: usize, line: usize, message: String, tip: String) -> (e: Error)
        ensures
            e.position == position,
            e.line == line,
            e.message@ == message@,
            e.tip@ == tip@,
    {
        Error { position, line, message, tip }
    }
}

} // verus!

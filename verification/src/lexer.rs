//! The tokens of the language and the scanner that cuts a source text into them.

use vstd::prelude::*;

pub mod lexer;
pub mod token;
pub mod toks;

verus! {

pub type LexerParseResult<T> = Result<T, LexerParsingError>;

/// Why the scanner gave up, and at which offset of the text.
#[derive(Debug, Clone, PartialEq)]
pub struct LexerParsingError {
    pub reason: String,
    pub position: usize,
}

impl LexerParsingError {
    pub fn new(reason: String, pos: usize) -> (r: Self)
        ensures
            r.reason == reason,
            r.position == pos,
    {
        LexerParsingError { reason, position: pos }
    }
}

} // verus!

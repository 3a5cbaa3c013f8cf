//! Tokens: their kinds, their positions, and the checks that the parser makes on
//! them.

use vstd::prelude::*;
use crate::commons::Position;
use crate::commons::err::{PositionedError, PositionedResult, fails_at, same_place};
use crate::errors::errors::{EXPECTED_COMP_OPERATOR, EXPECTED_INT_LIT, EXPECTED_KEYWORD, EXPECTED_MATH_OPERATOR, EXPECTED_STRING_LIT, EXPECTED_TOKEN, TOKEN_NOT_KEYWORD};
use crate::lexer::{LexerParseResult, LexerParsingError};
use crate::lexer::toks::comp::ComparingOperator;
use crate::lexer::toks::math::MathOperator;

verus! {

/// The kind of a token, with what it carries.
#[allow(non_camel_case_types)]
#[derive(PartialEq, Debug, Clone)]
pub enum LexerTokenType {
    /// The `func` keyword.
    Function,
    ShadowFunction,
    Var,
    Struct,
    Layout,
    Lay,
    Static,
    /// An arithmetic operator, and whether it assigns its result to its left operand.
    MathOperator(MathOperator, bool),
    ComparingOperator(ComparingOperator),
    /// The `ret` keyword.
    Return,
    True,
    False,
    For,
    If,
    Else,
    While,
    EqualSign,
    ExclamationMark,
    Comma,
    Dot,
    Ampersand,
    BracketOpen,
    BracketClose,
    ParenOpen,
    ParenClose,
    ArrayOpen,
    ArrayClose,
    IntLit(i64),
    StringLit(String),
    AngelBracketOpen,
    AngelBracketClose,
    /// Any other word, with the hash of its text.
    KEYWORD(String, u64),
    EndOfFile,
}

impl LexerTokenType {
    /// Two kinds are the same when they are the same variant and carry the same:
    /// texts are compared by their characters.
    pub open spec fn same(self, other: Self) -> bool {
        match (self, other) {
            (LexerTokenType::Function, LexerTokenType::Function) => true,
            (LexerTokenType::ShadowFunction, LexerTokenType::ShadowFunction) => true,
            (LexerTokenType::Var, LexerTokenType::Var) => true,
            (LexerTokenType::Struct, LexerTokenType::Struct) => true,
            (LexerTokenType::Layout, LexerTokenType::Layout) => true,
            (LexerTokenType::Lay, LexerTokenType::Lay) => true,
            (LexerTokenType::Static, LexerTokenType::Static) => true,
            (LexerTokenType::Return, LexerTokenType::Return) => true,
            (LexerTokenType::True, LexerTokenType::True) => true,
            (LexerTokenType::False, LexerTokenType::False) => true,
            (LexerTokenType::For, LexerTokenType::For) => true,
            (LexerTokenType::If, LexerTokenType::If) => true,
            (LexerTokenType::Else, LexerTokenType::Else) => true,
            (LexerTokenType::While, LexerTokenType::While) => true,
            (LexerTokenType::EqualSign, LexerTokenType::EqualSign) => true,
            (LexerTokenType::ExclamationMark, LexerTokenType::ExclamationMark) => true,
            (LexerTokenType::Comma, LexerTokenType::Comma) => true,
            (LexerTokenType::Dot, LexerTokenType::Dot) => true,
            (LexerTokenType::Ampersand, LexerTokenType::Ampersand) => true,
            (LexerTokenType::BracketOpen, LexerTokenType::BracketOpen) => true,
            (LexerTokenType::BracketClose, LexerTokenType::BracketClose) => true,
            (LexerTokenType::ParenOpen, LexerTokenType::ParenOpen) => true,
            (LexerTokenType::ParenClose, LexerTokenType::ParenClose) => true,
            (LexerTokenType::ArrayOpen, LexerTokenType::ArrayOpen) => true,
            (LexerTokenType::ArrayClose, LexerTokenType::ArrayClose) => true,
            (LexerTokenType::AngelBracketOpen, LexerTokenType::AngelBracketOpen) => true,
            (LexerTokenType::AngelBracketClose, LexerTokenType::AngelBracketClose) => true,
            (LexerTokenType::EndOfFile, LexerTokenType::EndOfFile) => true,
            (LexerTokenType::MathOperator(a, b), LexerTokenType::MathOperator(c, d)) => a == c && b
                == d,
            (LexerTokenType::ComparingOperator(a), LexerTokenType::ComparingOperator(b)) => a == b,
            (LexerTokenType::IntLit(a), LexerTokenType::IntLit(b)) => a == b,
            (LexerTokenType::StringLit(a), LexerTokenType::StringLit(b)) => a@ == b@,
            (LexerTokenType::KEYWORD(a, h), LexerTokenType::KEYWORD(b, g)) => a@ == b@ && h == g,
            _ => false,
        }
    }

    /// Whether two kinds are the same.
    pub fn same_as(&self, other: &Self) -> (r: bool)
        ensures
            r == self.same(*other),
    {
        match (self, other) {
            (LexerTokenType::Function, LexerTokenType::Function) => true,
            (LexerTokenType::ShadowFunction, LexerTokenType::ShadowFunction) => true,
            (LexerTokenType::Var, LexerTokenType::Var) => true,
            (LexerTokenType::Struct, LexerTokenType::Struct) => true,
            (LexerTokenType::Layout, LexerTokenType::Layout) => true,
            (LexerTokenType::Lay, LexerTokenType::Lay) => true,
            (LexerTokenType::Static, LexerTokenType::Static) => true,
            (LexerTokenType::Return, LexerTokenType::Return) => true,
            (LexerTokenType::True, LexerTokenType::True) => true,
            (LexerTokenType::False, LexerTokenType::False) => true,
            (LexerTokenType::For, LexerTokenType::For) => true,
            (LexerTokenType::If, LexerTokenType::If) => true,
            (LexerTokenType::Else, LexerTokenType::Else) => true,
            (LexerTokenType::While, LexerTokenType::While) => true,
            (LexerTokenType::EqualSign, LexerTokenType::EqualSign) => true,
            (LexerTokenType::ExclamationMark, LexerTokenType::ExclamationMark) => true,
            (LexerTokenType::Comma, LexerTokenType::Comma) => true,
            (LexerTokenType::Dot, LexerTokenType::Dot) => true,
            (LexerTokenType::Ampersand, LexerTokenType::Ampersand) => true,
            (LexerTokenType::BracketOpen, LexerTokenType::BracketOpen) => true,
            (LexerTokenType::BracketClose, LexerTokenType::BracketClose) => true,
            (LexerTokenType::ParenOpen, LexerTokenType::ParenOpen) => true,
            (LexerTokenType::ParenClose, LexerTokenType::ParenClose) => true,
            (LexerTokenType::ArrayOpen, LexerTokenType::ArrayOpen) => true,
            (LexerTokenType::ArrayClose, LexerTokenType::ArrayClose) => true,
            (LexerTokenType::AngelBracketOpen, LexerTokenType::AngelBracketOpen) => true,
            (LexerTokenType::AngelBracketClose, LexerTokenType::AngelBracketClose) => true,
            (LexerTokenType::EndOfFile, LexerTokenType::EndOfFile) => true,
            (LexerTokenType::MathOperator(a, b), LexerTokenType::MathOperator(c, d)) => {
                *a == *c && *b == *d
            },
            (LexerTokenType::ComparingOperator(a), LexerTokenType::ComparingOperator(b)) => *a
                == *b,
            (LexerTokenType::IntLit(a), LexerTokenType::IntLit(b)) => *a == *b,
            (LexerTokenType::StringLit(a), LexerTokenType::StringLit(b)) => *a == *b,
            (LexerTokenType::KEYWORD(a, h), LexerTokenType::KEYWORD(b, g)) => *a == *b && *h == *g,
            _ => false,
        }
    }
}

/// A token: its kind and the span that it covers.
#[derive(Debug, Clone, PartialEq)]
pub struct LexerToken {
    pub tok_type: LexerTokenType,
    pub pos: Position,
    pub end_pos: Position,
}

impl LexerToken {
    /// A token one column wide.
    pub fn make_single_sized(pos: Position, t: LexerTokenType) -> (r: Self)
        requires
            pos.col < usize::MAX,
        ensures
            r.tok_type == t,
            r.pos == pos,
            r.end_pos.line == pos.line,
            r.end_pos.col == pos.col + 1,
            r.end_pos.file_path@ == pos.file_path@,
    {
        let end = pos.increment_by(1);
        LexerToken { tok_type: t, pos, end_pos: end }
    }

    pub fn new(start: Position, end: Position, t: LexerTokenType) -> (r: Self)
        ensures
            r.tok_type == t,
            r.pos == start,
            r.end_pos == end,
    {
        LexerToken { tok_type: t, pos: start, end_pos: end }
    }

    /// Whether the token is of kind `t`.
    pub fn is(&self, t: LexerTokenType) -> (r: bool)
        ensures
            r == self.tok_type.same(t),
    {
        self.tok_type.same_as(&t)
    }

    /// `Ok(true)` if the token is of kind `t`, an error at the token otherwise.
    pub fn expects(&self, t: LexerTokenType) -> (r: PositionedResult<bool>)
        ensures
            self.tok_type.same(t) ==> r == Ok::<bool, PositionedError>(true),
            !self.tok_type.same(t) ==> fails_at(r, self.pos, self.end_pos, EXPECTED_TOKEN),
    {
        if !self.tok_type.same_as(&t) {
            return Err(self.make_err(EXPECTED_TOKEN));
        }
        Ok(true)
    }

    /// The number that an integer literal carries.
    pub fn expects_int_lit(&self) -> (r: PositionedResult<i64>)
        ensures
            match self.tok_type {
                LexerTokenType::IntLit(v) => r == Ok::<i64, PositionedError>(v),
                _ => fails_at(r, self.pos, self.end_pos, EXPECTED_INT_LIT),
            },
    {
        match &self.tok_type {
            LexerTokenType::IntLit(v) => Ok(*v),
            _ => Err(self.make_err(EXPECTED_INT_LIT)),
        }
    }

    /// The operator that a comparing token carries.
    pub fn expects_comp_operator(&self) -> (r: PositionedResult<ComparingOperator>)
        ensures
            match self.tok_type {
                LexerTokenType::ComparingOperator(op) => r == Ok::<
                    ComparingOperator,
                    PositionedError,
                >(op),
                _ => fails_at(r, self.pos, self.end_pos, EXPECTED_COMP_OPERATOR),
            },
    {
        match &self.tok_type {
            LexerTokenType::ComparingOperator(op) => Ok(*op),
            _ => Err(self.make_err(EXPECTED_COMP_OPERATOR)),
        }
    }

    /// The operator that an arithmetic token carries, and whether it assigns.
    pub fn expects_math_operator(&self) -> (r: PositionedResult<(MathOperator, bool)>)
        ensures
            match self.tok_type {
                LexerTokenType::MathOperator(a, b) => r == Ok::<
                    (MathOperator, bool),
                    PositionedError,
                >((a, b)),
                _ => fails_at(r, self.pos, self.end_pos, EXPECTED_MATH_OPERATOR),
            },
    {
        match &self.tok_type {
            LexerTokenType::MathOperator(a, b) => Ok((*a, *b)),
            _ => Err(self.make_err(EXPECTED_MATH_OPERATOR)),
        }
    }

    /// The text that a string literal carries.
    pub fn expects_string_lit(&self) -> (r: PositionedResult<String>)
        ensures
            match self.tok_type {
                LexerTokenType::StringLit(v) => r is Ok && r->Ok_0@ == v@,
                _ => fails_at(r, self.pos, self.end_pos, EXPECTED_STRING_LIT),
            },
    {
        match &self.tok_type {
            LexerTokenType::StringLit(v) => Ok(v.clone()),
            _ => Err(self.make_err(EXPECTED_STRING_LIT)),
        }
    }

    /// The text and hash that a word carries.
    pub fn expects_keyword(&self) -> (r: PositionedResult<(String, u64)>)
        ensures
            match self.tok_type {
                LexerTokenType::KEYWORD(s, h) => r is Ok && r->Ok_0.0@ == s@ && r->Ok_0.1 == h,
                _ => fails_at(r, self.pos, self.end_pos, EXPECTED_KEYWORD),
            },
    {
        match &self.tok_type {
            LexerTokenType::KEYWORD(s, h) => Ok((s.clone(), *h)),
            _ => Err(self.make_err(EXPECTED_KEYWORD)),
        }
    }

    /// An error that points at this token.
    pub fn make_err(&self, err: &str) -> (r: PositionedError)
        ensures
            r.reason@ == err@,
            same_place(r.start, self.pos),
            same_place(r.end, self.end_pos),
    {
        PositionedError::new(self.pos.duplicate(), self.end_pos.duplicate(), err.to_string())
    }

    /// The text and hash that a word carries, or a scanner error at offset zero.
    pub fn as_keyword(&self) -> (r: LexerParseResult<(String, u64)>)
        ensures
            match self.tok_type {
                LexerTokenType::KEYWORD(s, h) => r is Ok && r->Ok_0.0@ == s@ && r->Ok_0.1 == h,
                _ => r is Err && r->Err_0.reason@ == TOKEN_NOT_KEYWORD@ && r->Err_0.position == 0,
            },
    {
        match &self.tok_type {
            LexerTokenType::KEYWORD(s, h) => Ok((s.clone(), *h)),
            _ => Err(LexerParsingError::new(TOKEN_NOT_KEYWORD.to_string(), 0)),
        }
    }

    /// Whether the token is a word that is no reserved word.
    pub fn is_keyword(&self) -> (r: bool)
        ensures
            r == (self.tok_type is KEYWORD),
    {
        match &self.tok_type {
            LexerTokenType::KEYWORD(_, _) => true,
            _ => false,
        }
    }
}

} // verus!

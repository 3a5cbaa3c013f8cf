//! Literals.

use vstd::prelude::*;
use crate::commons::err::{PositionedError, PositionedResult};
use crate::errors::errors::{EXPECTED_INT_LIT, EXPECTED_STRING_LIT};
use crate::lexer::token::{LexerToken, LexerTokenType};
use crate::parser::ast::{error_at, spec_error_at, spec_kind_at, token_at};
use crate::parser::ast::tree::ASTTreeNode;

verus! {

/// The integer literal at `*ind`.
pub fn parse_integer_literal(tokens: &Vec<LexerToken>, ind: &mut usize) -> (r: PositionedResult<
    Box<ASTTreeNode>,
>)
    ensures
        match spec_kind_at(tokens@, *old(ind) as int) {
            Some(LexerTokenType::IntLit(v)) => r == Ok::<Box<ASTTreeNode>, PositionedError>(
                Box::new(ASTTreeNode::IntegerLit(v)),
            ) && *final(ind) == *old(ind) + 1,
            _ => r is Err && spec_error_at(r->Err_0, tokens@, *old(ind) as int, EXPECTED_INT_LIT)
                && *final(ind) == *old(ind),
        },
{
    match token_at(tokens, *ind) {
        Some(t) => match &t.tok_type {
            LexerTokenType::IntLit(val) => {
                *ind = *ind + 1;
                Ok(Box::new(ASTTreeNode::IntegerLit(*val)))
            },
            _ => Err(error_at(tokens, *ind, EXPECTED_INT_LIT)),
        },
        None => Err(error_at(tokens, *ind, EXPECTED_INT_LIT)),
    }
}

/// The string literal at `*ind`.
pub fn parse_string_literal(tokens: &Vec<LexerToken>, ind: &mut usize) -> (r: PositionedResult<
    Box<ASTTreeNode>,
>)
    ensures
        match spec_kind_at(tokens@, *old(ind) as int) {
            Some(LexerTokenType::StringLit(v)) => r is Ok && (match *r->Ok_0 {
                ASTTreeNode::StringLit(s) => s@ == v@,
                _ => false,
            }) && *final(ind) == *old(ind) + 1,
            _ => r is Err && spec_error_at(
                r->Err_0,
                tokens@,
                *old(ind) as int,
                EXPECTED_STRING_LIT,
            ) && *final(ind) == *old(ind),
        },
{
    match token_at(tokens, *ind) {
        Some(t) => match &t.tok_type {
            LexerTokenType::StringLit(val) => {
                *ind = *ind + 1;
                Ok(Box::new(ASTTreeNode::StringLit(val.clone())))
            },
            _ => Err(error_at(tokens, *ind, EXPECTED_STRING_LIT)),
        },
        None => Err(error_at(tokens, *ind, EXPECTED_STRING_LIT)),
    }
}

} // verus!

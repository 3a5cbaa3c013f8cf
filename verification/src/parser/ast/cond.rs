//! Conditions: the separator between them and the operators inside them.

use vstd::prelude::*;
use crate::commons::err::{PositionedError, PositionedResult};
use crate::errors::errors::AST_CONDITION_SEPERATOR;
use crate::lexer::token::{LexerToken, LexerTokenType};
use crate::parser::ast::{error_at, is_at, spec_error_at, spec_is_at};

pub mod operators;

verus! {

/// The separator of two conditions: an `&` after the token at `*ind`. The index
/// is left at the `&`.
pub fn parse_condition_seperator(tokens: &Vec<LexerToken>, ind: &mut usize) -> (r:
    PositionedResult<bool>)
    requires
        *old(ind) < usize::MAX,
    ensures
        *final(ind) == *old(ind) + 1,
        spec_is_at(tokens@, *old(ind) + 1, LexerTokenType::Ampersand) ==> r == Ok::<
            bool,
            PositionedError,
        >(true),
        !spec_is_at(tokens@, *old(ind) + 1, LexerTokenType::Ampersand) ==> r is Err
            && spec_error_at(r->Err_0, tokens@, *old(ind) + 1, AST_CONDITION_SEPERATOR),
{
    *ind = *ind + 1;
    if is_at(tokens, *ind, &LexerTokenType::Ampersand) {
        return Ok(true);
    }
    Err(error_at(tokens, *ind, AST_CONDITION_SEPERATOR))
}

} // verus!

//! The operators of a condition, spelled with one or two tokens.

use vstd::prelude::*;
use crate::commons::err::{PositionedError, PositionedResult};
use crate::errors::errors::AST_CONDITION_OPERATOR;
use crate::lexer::token::{LexerToken, LexerTokenType};
use crate::parser::ast::{error_at, is_at, spec_is_at};

verus! {

#[allow(non_camel_case_types)]
#[derive(Debug, PartialEq, Eq, Clone, Copy, Structural)]
pub enum ConditionOperator {
    EQUAL,
    NOT_EQUAL,
    /// `A > B`
    HIGHER,
    /// `A < B`
    LOWER,
    /// `A >= B`
    HIGHEREQ,
    /// `A <= B`
    LOWEREQ,
}

/// The operator that two tokens spell, and the number of tokens that it takes
/// less one.
pub open spec fn spec_condition_operator(tokens: Seq<LexerToken>, i: int) -> Option<
    (ConditionOperator, int),
> {
    let equal_next = spec_is_at(tokens, i + 1, LexerTokenType::EqualSign);
    if spec_is_at(tokens, i, LexerTokenType::EqualSign) {
        if equal_next {
            Some((ConditionOperator::EQUAL, 1))
        } else {
            None
        }
    } else if spec_is_at(tokens, i, LexerTokenType::ExclamationMark) {
        if equal_next {
            Some((ConditionOperator::NOT_EQUAL, 1))
        } else {
            None
        }
    } else if spec_is_at(tokens, i, LexerTokenType::AngelBracketOpen) {
        if equal_next {
            Some((ConditionOperator::LOWEREQ, 1))
        } else {
            Some((ConditionOperator::LOWER, 1))
        }
    } else if spec_is_at(tokens, i, LexerTokenType::AngelBracketClose) {
        if equal_next {
            Some((ConditionOperator::HIGHEREQ, 1))
        } else {
            Some((ConditionOperator::HIGHER, 1))
        }
    } else {
        None
    }
}

/// The operator of a condition at `*ind`: `==`, `!=`, `<`, `<=`, `>` or `>=`,
/// spelled with the tokens of their characters. The index is left at the token
/// after the first one of the operator.
pub fn parse_condition_operator(tokens: &Vec<LexerToken>, ind: &mut usize) -> (r: PositionedResult<
    ConditionOperator,
>)
    requires
        *old(ind) < usize::MAX,
    ensures
        match spec_condition_operator(tokens@, *old(ind) as int) {
            Some((op, width)) => r == Ok::<ConditionOperator, PositionedError>(op) && *final(ind)
                == *old(ind) + width,
            None => r is Err && r->Err_0.reason@ == AST_CONDITION_OPERATOR@ && *old(ind) <= *final(ind) <= *old(ind) + 1,
        },
{
    if is_at(tokens, *ind, &LexerTokenType::EqualSign) {
        *ind = *ind + 1;
        if is_at(tokens, *ind, &LexerTokenType::EqualSign) {
            return Ok(ConditionOperator::EQUAL);
        }
    } else if is_at(tokens, *ind, &LexerTokenType::ExclamationMark) {
        *ind = *ind + 1;
        if is_at(tokens, *ind, &LexerTokenType::EqualSign) {
            return Ok(ConditionOperator::NOT_EQUAL);
        }
    } else if is_at(tokens, *ind, &LexerTokenType::AngelBracketOpen) {
        *ind = *ind + 1;
        if is_at(tokens, *ind, &LexerTokenType::EqualSign) {
            return Ok(ConditionOperator::LOWEREQ);
        }
        return Ok(ConditionOperator::LOWER);
    } else if is_at(tokens, *ind, &LexerTokenType::AngelBracketClose) {
        *ind = *ind + 1;
        if is_at(tokens, *ind, &LexerTokenType::EqualSign) {
            return Ok(ConditionOperator::HIGHEREQ);
        }
        return Ok(ConditionOperator::HIGHER);
    }
    Err(error_at(tokens, *ind, AST_CONDITION_OPERATOR))
}

} // verus!

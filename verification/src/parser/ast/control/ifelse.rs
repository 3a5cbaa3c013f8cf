//! `if`, `else if` and `else`.

use vstd::prelude::*;
use crate::commons::err::PositionedResult;
use crate::errors::errors::{AST_VALUE_TOKEN, EXPECTED_TOKEN};
use crate::lexer::token::{LexerToken, LexerTokenType};
use crate::parser::ast::{error_at, expect, is_at, parse_ast_value, spec_error_at, spec_fails_here, spec_is_at, spec_moved};
use crate::parser::ast::func::parse_node_body;
use crate::parser::ast::grammar::{spec_boundary, spec_condition, spec_else, spec_empty_body, spec_guarded, spec_member, spec_closes, spec_next, spec_plain_value, spec_starts_value, spec_tail};
use crate::parser::ast::outcome::{spec_condition_end, spec_else_end, spec_if_end, spec_lands};
use crate::parser::ast::tree::ASTTreeNode;

verus! {

/// What a rule comes to that takes a condition in parentheses at `i` and a
/// body after it, as far as the first tokens decide it. Without `(` at `i` it
/// fails there, and without the start of a value after the `(` it fails at
/// that token. Where the condition is one value all by itself, the rule fails
/// at what stands in place of `)` or of `{`; and where the body has no members
/// and, for a rule that takes an `else`, no `else` follows or one with a body
/// without members, the rule succeeds and leaves the index on the last `}`.
pub open spec fn spec_guarded_outcome(
    r: PositionedResult<Box<ASTTreeNode>>,
    tokens: Seq<LexerToken>,
    i: int,
    after: usize,
    takes_else: bool,
) -> bool {
    if !spec_is_at(tokens, i, LexerTokenType::ParenOpen) {
        spec_fails_here(r, tokens, i, EXPECTED_TOKEN, after)
    } else if !spec_starts_value(tokens, i + 1) {
        spec_fails_here(r, tokens, i + 1, AST_VALUE_TOKEN, after)
    } else if !spec_plain_value(tokens, i + 1) {
        true
    } else if !spec_is_at(tokens, i + 2, LexerTokenType::ParenClose) {
        spec_fails_here(r, tokens, i + 2, EXPECTED_TOKEN, after)
    } else if !spec_is_at(tokens, i + 3, LexerTokenType::BracketOpen) {
        spec_fails_here(r, tokens, i + 3, EXPECTED_TOKEN, after)
    } else if !spec_is_at(tokens, i + 4, LexerTokenType::BracketClose) {
        true
    } else if !takes_else || !spec_is_at(tokens, i + 5, LexerTokenType::Else) {
        r is Ok && after == i + 4
    } else {
        spec_empty_body(tokens, i + 6) && !spec_is_at(tokens, i + 6, LexerTokenType::If)
            ==> r is Ok && after == i + 7
    }
}

/// A condition in parentheses: `(`, which stands at `*ind`, a value, and `)`.
pub fn parse_condition_member(tokens: &Vec<LexerToken>, ind: &mut usize) -> (r: PositionedResult<
    Box<ASTTreeNode>,
>)
    ensures
        spec_moved(*old(ind), *final(ind), tokens@.len()),
        !spec_is_at(tokens@, *old(ind) as int, LexerTokenType::ParenOpen) ==> r is Err
            && spec_error_at(r->Err_0, tokens@, *old(ind) as int, EXPECTED_TOKEN) && *final(ind)
            == *old(ind),
        r is Ok ==> *old(ind) + 2 < *final(ind) <= tokens@.len() && spec_condition(
            tokens@,
            *old(ind) as int,
            *final(ind) as int,
            *r->Ok_0,
        ) && crate::parser::ast::spec_is_value(*r->Ok_0),
        spec_is_at(tokens@, *old(ind) as int, LexerTokenType::ParenOpen) && !spec_starts_value(
            tokens@,
            *old(ind) + 1,
        ) ==> spec_fails_here(r, tokens@, *old(ind) + 1, AST_VALUE_TOKEN, *final(ind)),
        spec_is_at(tokens@, *old(ind) as int, LexerTokenType::ParenOpen) && spec_plain_value(
            tokens@,
            *old(ind) + 1,
        ) ==> if spec_is_at(tokens@, *old(ind) + 2, LexerTokenType::ParenClose) {
            r is Ok && *final(ind) == *old(ind) + 3
        } else {
            spec_fails_here(r, tokens@, *old(ind) + 2, EXPECTED_TOKEN, *final(ind))
        },
        spec_lands(r, *final(ind), spec_condition_end(tokens@, *old(ind) as int)),
    decreases tokens@.len() - *old(ind), 5nat,
{
    expect(tokens, ind, &LexerTokenType::ParenOpen)?;
    let cond = parse_ast_value(tokens, ind)?;
    expect(tokens, ind, &LexerTokenType::ParenClose)?;
    Ok(cond)
}

/// An `if`: its reserved word, which stands at `*ind`, a condition, a body,
/// and whatever `else` follows. The index is left on the last `}`.
pub fn parse_if_statement(tokens: &Vec<LexerToken>, ind: &mut usize) -> (r: PositionedResult<
    Box<ASTTreeNode>,
>)
    ensures
        spec_moved(*old(ind), *final(ind), tokens@.len()),
        r matches Ok(node) ==> *old(ind) + 4 < *final(ind) < tokens@.len() && spec_closes(tokens@, *final(ind) as int) && *node is IfStatement && (spec_is_at(tokens@, *old(ind) as int, LexerTokenType::If)
            ==> spec_member(tokens@, *old(ind) as int, spec_next(tokens@, *final(ind) as int), *node)),
        *old(ind) >= tokens@.len() ==> spec_fails_here(
            r,
            tokens@,
            *old(ind) as int,
            EXPECTED_TOKEN,
            *final(ind),
        ),
        *old(ind) < tokens@.len() ==> spec_guarded_outcome(
            r,
            tokens@,
            *old(ind) + 1,
            *final(ind),
            true,
        ),
        spec_lands(r, *final(ind), spec_if_end(tokens@, *old(ind) as int)),
    decreases tokens@.len() - *old(ind), 7nat,
{
    if *ind >= tokens.len() {
        return Err(error_at(tokens, *ind, EXPECTED_TOKEN));
    }
    *ind = *ind + 1;
    let cond = parse_condition_member(tokens, ind)?;
    let ghost after_cond = *ind as int;
    let body = parse_node_body(tokens, ind)?;
    let ghost after_body = spec_next(tokens@, *ind as int);
    let mut else_statement = None;
    if is_at(tokens, *ind, &LexerTokenType::BracketClose) && is_at(
        tokens,
        *ind + 1,
        &LexerTokenType::Else,
    ) {
        *ind = *ind + 1;
        else_statement = Some(parse_else_statement(tokens, ind)?);
    }
    proof {
        assert(spec_boundary(tokens@, after_cond));
        assert(spec_guarded(tokens@, *old(ind) + 1, after_body, *cond, body@));
        assert(spec_boundary(tokens@, after_body));
        assert(spec_tail(tokens@, after_body, spec_next(tokens@, *ind as int), else_statement));
    }
    Ok(Box::new(ASTTreeNode::IfStatement { cond, body, else_statement, depth: 0 }))
}

/// An `else`: its reserved word, which stands at `*ind`, then either `if` with
/// a condition, a body and whatever `else` follows, or a body alone. The index
/// is left on the last `}`.
pub fn parse_else_statement(tokens: &Vec<LexerToken>, ind: &mut usize) -> (r: PositionedResult<
    Box<ASTTreeNode>,
>)
    ensures
        spec_moved(*old(ind), *final(ind), tokens@.len()),
        r matches Ok(node) ==> *old(ind) + 1 < *final(ind) < tokens@.len() && spec_closes(tokens@, *final(ind) as int) && spec_else(tokens@, *old(ind) as int, spec_next(tokens@, *final(ind) as int), *node),
        *old(ind) >= tokens@.len() ==> spec_fails_here(
            r,
            tokens@,
            *old(ind) as int,
            EXPECTED_TOKEN,
            *final(ind),
        ),
        *old(ind) < tokens@.len() ==> if spec_is_at(tokens@, *old(ind) + 1, LexerTokenType::If) {
            spec_guarded_outcome(r, tokens@, *old(ind) + 2, *final(ind), true)
        } else if !spec_is_at(tokens@, *old(ind) + 1, LexerTokenType::BracketOpen) {
            spec_fails_here(r, tokens@, *old(ind) + 1, EXPECTED_TOKEN, *final(ind))
        } else {
            spec_empty_body(tokens@, *old(ind) + 1) ==> r is Ok && *r->Ok_0 is ElseStatement
                && *final(ind) == *old(ind) + 2
        },
        spec_lands(r, *final(ind), spec_else_end(tokens@, *old(ind) as int)),
    decreases tokens@.len() - *old(ind), 6nat,
{
    if *ind >= tokens.len() {
        return Err(error_at(tokens, *ind, EXPECTED_TOKEN));
    }
    *ind = *ind + 1;
    if is_at(tokens, *ind, &LexerTokenType::If) {
        *ind = *ind + 1;
        let guard = parse_condition_member(tokens, ind)?;
        let ghost after_cond = *ind as int;
        let body = parse_node_body(tokens, ind)?;
        let ghost after_body = spec_next(tokens@, *ind as int);
        let mut else_statement = None;
        if is_at(tokens, *ind, &LexerTokenType::BracketClose) && is_at(
        tokens,
        *ind + 1,
        &LexerTokenType::Else,
    ) {
            *ind = *ind + 1;
            else_statement = Some(parse_else_statement(tokens, ind)?);
        }
        proof {
            assert(spec_boundary(tokens@, after_cond));
            assert(spec_guarded(tokens@, *old(ind) + 2, after_body, *guard, body@));
            assert(spec_boundary(tokens@, after_body));
            assert(spec_tail(tokens@, after_body, spec_next(tokens@, *ind as int), else_statement));
        }
        return Ok(
            Box::new(ASTTreeNode::IfElseStatement { cond: Some(guard), body, else_statement }),
        );
    }
    let body = parse_node_body(tokens, ind)?;
    Ok(Box::new(ASTTreeNode::ElseStatement { body }))
}

} // verus!

//! `for`.

use vstd::prelude::*;
use crate::commons::err::PositionedResult;
use crate::errors::errors::{AST_FOR_SEPERATOR, AST_VALUE_TOKEN, EXPECTED_KEYWORD, EXPECTED_TOKEN};
use crate::lexer::token::{LexerToken, LexerTokenType};
use crate::parser::ast::{error_at, expect, is_at, parse_ast_node_in_body, parse_ast_value, spec_fails_here, spec_is_at, spec_moved};
use crate::parser::ast::func::parse_node_body;
use crate::parser::ast::grammar::{spec_boundary, spec_closes, spec_empty_body, spec_member, spec_next, spec_plain_value, spec_starts_value, spec_word_at};
use crate::parser::ast::outcome::{spec_for_end, spec_lands};
use crate::parser::ast::tree::ASTTreeNode;
use crate::parser::ast::var::decl::parse_variable_declaration;

verus! {

/// What a `for` comes to after the declaration of its loop variable, where a
/// comma stands at `k`, as far as the first tokens decide it. It fails at what
/// follows the comma if no value can start there. Where the condition is one
/// value all by itself, it fails at what stands in place of the second comma;
/// and where the increment is one word all by itself, it fails at what stands
/// in place of `)` or of `{`, and succeeds where the body has no members.
pub open spec fn spec_for_rest(
    r: PositionedResult<Box<ASTTreeNode>>,
    tokens: Seq<LexerToken>,
    k: int,
    after: usize,
) -> bool {
    if !spec_starts_value(tokens, k + 1) {
        spec_fails_here(r, tokens, k + 1, AST_VALUE_TOKEN, after)
    } else if !spec_plain_value(tokens, k + 1) {
        true
    } else if !spec_is_at(tokens, k + 2, LexerTokenType::Comma) {
        spec_fails_here(r, tokens, k + 2, AST_FOR_SEPERATOR, after)
    } else if !(spec_word_at(tokens, k + 3) && spec_plain_value(tokens, k + 3)) {
        true
    } else if !spec_is_at(tokens, k + 4, LexerTokenType::ParenClose) {
        spec_fails_here(r, tokens, k + 4, EXPECTED_TOKEN, after)
    } else if !spec_is_at(tokens, k + 5, LexerTokenType::BracketOpen) {
        spec_fails_here(r, tokens, k + 5, EXPECTED_TOKEN, after)
    } else {
        spec_empty_body(tokens, k + 5) ==> r is Ok && after == k + 6
    }
}

/// What a `for` comes to whose reserved word stands at `i`, as far as its
/// first tokens decide it: it fails at what stands in place of `(`, at the
/// first place at which the declaration of the loop variable fails, and at
/// what stands in place of the comma after a declaration that is decided by
/// its first tokens; after that comma it goes on as `spec_for_rest` says.
pub open spec fn spec_for_outcome(
    r: PositionedResult<Box<ASTTreeNode>>,
    tokens: Seq<LexerToken>,
    i: int,
    after: usize,
) -> bool {
    if !spec_is_at(tokens, i + 1, LexerTokenType::ParenOpen) {
        spec_fails_here(r, tokens, i + 1, EXPECTED_TOKEN, after)
    } else if !spec_word_at(tokens, i + 2) {
        spec_fails_here(r, tokens, i + 2, EXPECTED_KEYWORD, after)
    } else if !spec_word_at(tokens, i + 3) {
        spec_fails_here(r, tokens, i + 3, EXPECTED_KEYWORD, after)
    } else if !spec_is_at(tokens, i + 4, LexerTokenType::EqualSign) {
        if !spec_is_at(tokens, i + 4, LexerTokenType::Comma) {
            spec_fails_here(r, tokens, i + 4, AST_FOR_SEPERATOR, after)
        } else {
            spec_for_rest(r, tokens, i + 4, after)
        }
    } else if !spec_starts_value(tokens, i + 5) {
        spec_fails_here(r, tokens, i + 5, AST_VALUE_TOKEN, after)
    } else if !spec_plain_value(tokens, i + 5) {
        true
    } else if !spec_is_at(tokens, i + 6, LexerTokenType::Comma) {
        spec_fails_here(r, tokens, i + 6, AST_FOR_SEPERATOR, after)
    } else {
        spec_for_rest(r, tokens, i + 6, after)
    }
}

/// A `for`: its reserved word, which stands at `*ind`; in parentheses the
/// declaration of the loop variable (type, name, `=`, value), the condition and
/// the increment, with commas between them; and a body, on whose `}` the
/// index is left.
pub fn parse_for_loop(tokens: &Vec<LexerToken>, ind: &mut usize) -> (r: PositionedResult<
    Box<ASTTreeNode>,
>)
    ensures
        spec_moved(*old(ind), *final(ind), tokens@.len()),
        r matches Ok(node) ==> *old(ind) + 8 < *final(ind) < tokens@.len() && spec_closes(tokens@, *final(ind) as int) && *node is ForBlock && (spec_is_at(tokens@, *old(ind) as int, LexerTokenType::For)
            ==> spec_member(tokens@, *old(ind) as int, spec_next(tokens@, *final(ind) as int), *node)),
        *old(ind) >= tokens@.len() ==> spec_fails_here(
            r,
            tokens@,
            *old(ind) as int,
            EXPECTED_TOKEN,
            *final(ind),
        ),
        *old(ind) < tokens@.len() ==> spec_for_outcome(
            r,
            tokens@,
            *old(ind) as int,
            *final(ind),
        ),
        spec_lands(r, *final(ind), spec_for_end(tokens@, *old(ind) as int)),
    decreases tokens@.len() - *old(ind), 7nat,
{
    if *ind >= tokens.len() {
        return Err(error_at(tokens, *ind, EXPECTED_TOKEN));
    }
    *ind = *ind + 1;
    if !is_at(tokens, *ind, &LexerTokenType::ParenOpen) {
        return Err(error_at(tokens, *ind, EXPECTED_TOKEN));
    }
    let initial = parse_variable_declaration(tokens, ind)?;
    let ghost k1 = *ind as int;
    if !is_at(tokens, *ind, &LexerTokenType::Comma) {
        return Err(error_at(tokens, *ind, AST_FOR_SEPERATOR));
    }
    *ind = *ind + 1;
    let cond = parse_ast_value(tokens, ind)?;
    let ghost k2 = *ind as int;
    if !is_at(tokens, *ind, &LexerTokenType::Comma) {
        return Err(error_at(tokens, *ind, AST_FOR_SEPERATOR));
    }
    *ind = *ind + 1;
    let increment = parse_ast_node_in_body(tokens, ind)?;
    let ghost k3 = *ind as int;
    if increment.ends_in_body() {
        return Err(error_at(tokens, *ind, EXPECTED_TOKEN));
    }
    expect(tokens, ind, &LexerTokenType::ParenClose)?;
    let body = parse_node_body(tokens, ind)?;
    proof {
        assert(spec_boundary(tokens@, k1) && spec_boundary(tokens@, k2) && spec_boundary(
            tokens@,
            k3,
        ));
        assert(spec_member(tokens@, k2 + 1, k3, *increment));
    }
    Ok(Box::new(ASTTreeNode::ForBlock { initial_state: initial, cond, increment, body }))
}

} // verus!

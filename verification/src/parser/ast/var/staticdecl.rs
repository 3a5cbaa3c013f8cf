//! Static variable declarations.

use vstd::prelude::*;
use crate::commons::err::PositionedResult;
use crate::errors::errors::{AST_VALUE_TOKEN, EXPECTED_KEYWORD, EXPECTED_TOKEN};
use crate::lexer::token::{LexerToken, LexerTokenType};
use crate::parser::ast::{error_at, expect, expect_word, parse_ast_value, spec_fails_here, spec_is_at, spec_kind_at, spec_moved};
use crate::parser::ast::grammar::{spec_declared, spec_plain_value, spec_starts_value, spec_word_at};
use crate::parser::ast::outcome::{spec_lands, spec_static_end};
use crate::parser::ast::tree::ASTTreeNode;
use crate::utils::hash::WithHash;

verus! {

/// What the declaration of a static variable comes to whose reserved word
/// stands at `i`, as far as the tokens after it decide it. It fails at the
/// first of the two places after `i` at which no word stands, at what stands
/// in place of `=`, and at what follows `=` if no value can start there. Where
/// the value is one token all by itself it succeeds and has taken five tokens.
pub open spec fn spec_static_outcome(
    r: PositionedResult<Box<ASTTreeNode>>,
    tokens: Seq<LexerToken>,
    i: int,
    after: usize,
) -> bool {
    if !spec_word_at(tokens, i + 1) {
        spec_fails_here(r, tokens, i + 1, EXPECTED_KEYWORD, after)
    } else if !spec_word_at(tokens, i + 2) {
        spec_fails_here(r, tokens, i + 2, EXPECTED_KEYWORD, after)
    } else if !spec_is_at(tokens, i + 3, LexerTokenType::EqualSign) {
        spec_fails_here(r, tokens, i + 3, EXPECTED_TOKEN, after)
    } else if !spec_starts_value(tokens, i + 4) {
        spec_fails_here(r, tokens, i + 4, AST_VALUE_TOKEN, after)
    } else {
        spec_plain_value(tokens, i + 4) ==> r is Ok && after == i + 5
    }
}

/// The declaration of a static variable: its reserved word, which stands at
/// `*ind`, the name of the type, the name of the variable, `=` and the value.
pub fn parse_static_function_declaration(tokens: &Vec<LexerToken>, ind: &mut usize) -> (r:
    PositionedResult<Box<ASTTreeNode>>)
    ensures
        spec_moved(*old(ind), *final(ind), tokens@.len()),
        r matches Ok(node) ==> spec_declared(
            tokens@,
            *old(ind) as int,
            *final(ind) as int,
            *node,
        ),
        r matches Ok(node) ==> {
            &&& *old(ind) + 4 < *final(ind) <= tokens@.len()
            &&& spec_kind_at(tokens@, *old(ind) + 1) matches Some(
                LexerTokenType::KEYWORD(_, type_hash),
            )
            &&& spec_kind_at(tokens@, *old(ind) + 2) matches Some(LexerTokenType::KEYWORD(s, _))
            &&& match *node {
                ASTTreeNode::StaticVariableDeclaration { name, var_type, val: _ } => name.val@
                    == s@ && name.in_step() && var_type == type_hash,
                _ => false,
            }
        },
        *old(ind) >= tokens@.len() ==> spec_fails_here(
            r,
            tokens@,
            *old(ind) as int,
            EXPECTED_TOKEN,
            *final(ind),
        ),
        *old(ind) < tokens@.len() ==> spec_static_outcome(
            r,
            tokens@,
            *old(ind) as int,
            *final(ind),
        ),
        spec_lands(r, *final(ind), spec_static_end(tokens@, *old(ind) as int)),
{
    if *ind >= tokens.len() {
        return Err(error_at(tokens, *ind, EXPECTED_TOKEN));
    }
    *ind = *ind + 1;
    let var_type = expect_word(tokens, ind)?;
    let var_name = expect_word(tokens, ind)?;
    expect(tokens, ind, &LexerTokenType::EqualSign)?;
    let val = parse_ast_value(tokens, ind)?;
    Ok(
        Box::new(
            ASTTreeNode::StaticVariableDeclaration {
                name: WithHash::new(var_name.0),
                val,
                var_type: var_type.1,
            },
        ),
    )
}

} // verus!

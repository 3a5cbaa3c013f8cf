//! Variable declarations.

use vstd::prelude::*;
use crate::commons::err::PositionedResult;
use crate::errors::errors::{AST_VALUE_TOKEN, EXPECTED_KEYWORD, EXPECTED_TOKEN};
use crate::lexer::token::{LexerToken, LexerTokenType};
use crate::parser::ast::{error_at, expect_word, is_at, parse_ast_value, spec_fails_here, spec_is_at, spec_kind_at, spec_moved};
use crate::parser::ast::grammar::{spec_plain_value, spec_starts_value, spec_var_decl, spec_word_at};
use crate::parser::ast::outcome::{spec_lands, spec_var_decl_end};
use crate::parser::ast::tree::ASTTreeNode;
use crate::utils::hash::WithHash;

verus! {

/// What a variable declaration comes to whose first token stands at `i`, as
/// far as the tokens after it decide it. It fails at the first of the two
/// places after `i` at which no word stands. Without `=` after the two words
/// it succeeds and has taken three tokens. With `=` it fails at what follows
/// if no value can start there, and where the value is one token all by itself
/// it succeeds and has taken five.
pub open spec fn spec_var_decl_outcome(
    r: PositionedResult<Box<ASTTreeNode>>,
    tokens: Seq<LexerToken>,
    i: int,
    after: usize,
) -> bool {
    if !spec_word_at(tokens, i + 1) {
        spec_fails_here(r, tokens, i + 1, EXPECTED_KEYWORD, after)
    } else if !spec_word_at(tokens, i + 2) {
        spec_fails_here(r, tokens, i + 2, EXPECTED_KEYWORD, after)
    } else if !spec_is_at(tokens, i + 3, LexerTokenType::EqualSign) {
        r is Ok && after == i + 3
    } else if !spec_starts_value(tokens, i + 4) {
        spec_fails_here(r, tokens, i + 4, AST_VALUE_TOKEN, after)
    } else {
        spec_plain_value(tokens, i + 4) ==> r is Ok && after == i + 5
    }
}

/// A variable declaration: a first token, which stands at `*ind` and is
/// passed over, the name of the type, the name of the variable and, after `=`,
/// its initial value.
pub fn parse_variable_declaration(tokens: &Vec<LexerToken>, ind: &mut usize) -> (r:
    PositionedResult<Box<ASTTreeNode>>)
    ensures
        spec_moved(*old(ind), *final(ind), tokens@.len()),
        r matches Ok(node) ==> spec_var_decl(
            tokens@,
            *old(ind) as int,
            *final(ind) as int,
            *node,
        ),
        r matches Ok(node) ==> {
            &&& *old(ind) + 2 < *final(ind) <= tokens@.len()
            &&& spec_kind_at(tokens@, *old(ind) + 1) matches Some(
                LexerTokenType::KEYWORD(_, type_hash),
            )
            &&& spec_kind_at(tokens@, *old(ind) + 2) matches Some(LexerTokenType::KEYWORD(s, _))
            &&& match *node {
                ASTTreeNode::VarDeclaration { var_name, var_type, value } => {
                    &&& var_name.val@ == s@
                    &&& var_name.in_step()
                    &&& var_type == type_hash
                    &&& value is Some <==> spec_is_at(
                        tokens@,
                        *old(ind) + 3,
                        LexerTokenType::EqualSign,
                    )
                    &&& value is None ==> *final(ind) == *old(ind) + 3
                },
                _ => false,
            }
        },
        *old(ind) >= tokens@.len() ==> spec_fails_here(
            r,
            tokens@,
            *old(ind) as int,
            EXPECTED_TOKEN,
            *final(ind),
        ),
        *old(ind) < tokens@.len() ==> spec_var_decl_outcome(
            r,
            tokens@,
            *old(ind) as int,
            *final(ind),
        ),
        spec_lands(r, *final(ind), spec_var_decl_end(tokens@, *old(ind) as int)),
    decreases tokens@.len() - *old(ind), 6nat,
{
    if *ind >= tokens.len() {
        return Err(error_at(tokens, *ind, EXPECTED_TOKEN));
    }
    *ind = *ind + 1;
    let named_type = expect_word(tokens, ind)?;
    let var_name = expect_word(tokens, ind)?;
    let mut val: Option<Box<ASTTreeNode>> = None;
    if is_at(tokens, *ind, &LexerTokenType::EqualSign) {
        *ind = *ind + 1;
        val = Some(parse_ast_value(tokens, ind)?);
    }
    Ok(
        Box::new(
            ASTTreeNode::VarDeclaration {
                var_name: WithHash::new(var_name.0),
                var_type: named_type.1,
                value: val,
            },
        ),
    )
}

} // verus!

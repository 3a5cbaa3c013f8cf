//! `while`.

use vstd::prelude::*;
use crate::commons::err::PositionedResult;
use crate::errors::errors::EXPECTED_TOKEN;
use crate::lexer::token::{LexerToken, LexerTokenType};
use crate::parser::ast::{error_at, spec_fails_here, spec_is_at, spec_moved};
use crate::parser::ast::grammar::{spec_boundary, spec_closes, spec_guarded, spec_member, spec_next};
use crate::parser::ast::control::ifelse::{parse_condition_member, spec_guarded_outcome};
use crate::parser::ast::func::parse_node_body;
use crate::parser::ast::outcome::{spec_guarded_end, spec_lands};
use crate::parser::ast::tree::ASTTreeNode;

verus! {

/// A `while`: its reserved word, which stands at `*ind`, a condition and a
/// body. The index is left on the `}` of the body.
pub fn parse_while_block(tokens: &Vec<LexerToken>, ind: &mut usize) -> (r: PositionedResult<
    Box<ASTTreeNode>,
>)
    ensures
        spec_moved(*old(ind), *final(ind), tokens@.len()),
        r matches Ok(node) ==> *old(ind) + 4 < *final(ind) < tokens@.len() && spec_closes(tokens@, *final(ind) as int) && *node is WhileBlock && (spec_is_at(tokens@, *old(ind) as int, LexerTokenType::While)
            ==> spec_member(tokens@, *old(ind) as int, spec_next(tokens@, *final(ind) as int), *node)),
        *old(ind) >= tokens@.len() ==> spec_fails_here(
            r,
            tokens@,
            *old(ind) as int,
            EXPECTED_TOKEN,
            *final(ind),
        ),
        *old(ind) < tokens@.len() ==> spec_guarded_outcome(
            r,
            tokens@,
            *old(ind) + 1,
            *final(ind),
            false,
        ),
        *old(ind) < tokens@.len() ==> spec_lands(
            r,
            *final(ind),
            spec_guarded_end(tokens@, *old(ind) + 1),
        ),
    decreases tokens@.len() - *old(ind), 7nat,
{
    if *ind >= tokens.len() {
        return Err(error_at(tokens, *ind, EXPECTED_TOKEN));
    }
    *ind = *ind + 1;
    let cond = parse_condition_member(tokens, ind)?;
    let ghost after_cond = *ind as int;
    let body = parse_node_body(tokens, ind)?;
    proof {
        assert(spec_boundary(tokens@, after_cond));
        assert(spec_guarded(tokens@, *old(ind) + 1, spec_next(tokens@, *ind as int), *cond, body@));
    }
    Ok(Box::new(ASTTreeNode::WhileBlock { cond, body }))
}

} // verus!

//! Function declarations.

use vstd::prelude::*;
use crate::commons::err::PositionedResult;
use crate::errors::errors::{AST_ARGUMENT_END, EXPECTED_KEYWORD, EXPECTED_TOKEN};
use crate::lexer::token::{LexerToken, LexerTokenType};
use crate::parser::ast::{error_at, expect_word, spec_fails_here, spec_is_at, spec_kind_at, spec_moved, token_at};
use crate::parser::ast::func::{parse_function_arguments, parse_node_body};
use crate::parser::ast::grammar::{spec_boundary, spec_closes, spec_declared, spec_empty_body, spec_function_head, spec_next, spec_word_at};
use crate::parser::ast::outcome::{spec_function_end, spec_head_end, spec_lands};
use crate::parser::ast::tree::{ASTTreeNode, FunctionDeclarationArgument};
use crate::utils::hash::WithHash;

verus! {

/// The return type that a head names whose `)` stands before `i`: the hash of
/// the word at `i`, if a word stands there.
pub open spec fn spec_return_type(tokens: Seq<LexerToken>, i: int) -> Option<u64> {
    match spec_kind_at(tokens, i) {
        Some(LexerTokenType::KEYWORD(_, h)) => Some(h),
        _ => None,
    }
}

/// Where a head without parameters ends whose name stands at `i`: after the
/// `)`, or after the return type where one is named.
pub open spec fn spec_bare_head_end(tokens: Seq<LexerToken>, i: int) -> int {
    if spec_word_at(tokens, i + 3) {
        i + 4
    } else {
        i + 3
    }
}

/// What a rule comes to that takes a head whose name stands at `i`, where the
/// first tokens of the head decide it: it fails where no word stands at `i`,
/// where no `(` stands after it, and where neither a word nor `)` stands after
/// the `(`.
pub open spec fn spec_head_outcome<K>(
    r: PositionedResult<K>,
    tokens: Seq<LexerToken>,
    i: int,
    after: usize,
) -> bool {
    if !spec_word_at(tokens, i) {
        spec_fails_here(r, tokens, i, EXPECTED_KEYWORD, after)
    } else if !spec_is_at(tokens, i + 1, LexerTokenType::ParenOpen) {
        spec_fails_here(r, tokens, i + 1, EXPECTED_TOKEN, after)
    } else {
        !spec_word_at(tokens, i + 2) && !spec_is_at(tokens, i + 2, LexerTokenType::ParenClose)
            ==> spec_fails_here(r, tokens, i + 2, AST_ARGUMENT_END, after)
    }
}

/// Whether a head without parameters stands at `i`: a word, `(` and `)`.
pub open spec fn spec_bare_head(tokens: Seq<LexerToken>, i: int) -> bool {
    spec_word_at(tokens, i) && spec_is_at(tokens, i + 1, LexerTokenType::ParenOpen)
        && !spec_word_at(tokens, i + 2) && spec_is_at(tokens, i + 2, LexerTokenType::ParenClose)
}

/// The head of a function declaration, after its reserved word: the name, the
/// parameters and, where one is named, the return type.
fn parse_function_head(tokens: &Vec<LexerToken>, ind: &mut usize) -> (r: PositionedResult<
    (WithHash, Vec<FunctionDeclarationArgument>, Option<u64>),
>)
    ensures
        spec_moved(*old(ind), *final(ind), tokens@.len()),
        r matches Ok(head) ==> {
            &&& *old(ind) + 2 < *final(ind) <= tokens@.len()
            &&& spec_function_head(
                tokens@,
                *old(ind) as int,
                *final(ind) as int,
                head.0,
                head.1@,
                head.2,
            )
        },
        spec_head_outcome(r, tokens@, *old(ind) as int, *final(ind)),
        spec_bare_head(tokens@, *old(ind) as int) ==> r is Ok && r->Ok_0.1@.len() == 0
            && r->Ok_0.2 == spec_return_type(tokens@, *old(ind) + 3) && *final(ind)
            == spec_bare_head_end(tokens@, *old(ind) as int),
        spec_lands(r, *final(ind), spec_head_end(tokens@, *old(ind) as int)),
{
    let function_name = expect_word(tokens, ind)?;
    let args = parse_function_arguments(tokens, ind)?;
    proof {
        assert(spec_boundary(tokens@, *ind as int));
    }
    *ind = *ind + 1;
    let mut ret_type: Option<u64> = None;
    match token_at(tokens, *ind) {
        Some(t) => {
            match &t.tok_type {
                LexerTokenType::KEYWORD(_, h) => {
                    ret_type = Some(*h);
                    *ind = *ind + 1;
                },
                _ => {},
            }
        },
        None => {},
    }
    Ok((WithHash::new(function_name.0), args, ret_type))
}

/// The declaration of a function that is defined elsewhere: its reserved word,
/// which stands at `*ind`, and its head.
pub fn parse_shadow_function_declaration(tokens: &Vec<LexerToken>, ind: &mut usize) -> (r:
    PositionedResult<Box<ASTTreeNode>>)
    requires
        *old(ind) < usize::MAX,
    ensures
        *old(ind) < *final(ind),
        r matches Ok(node) ==> {
            &&& *old(ind) + 3 < *final(ind) <= tokens@.len()
            &&& *node is ShadowFunctionDeclaration
            &&& spec_declared(tokens@, *old(ind) as int, *final(ind) as int, *node)
        },
        spec_lands(r, *final(ind), spec_head_end(tokens@, *old(ind) + 1)),
{
    *ind = *ind + 1;
    let head = parse_function_head(tokens, ind)?;
    Ok(
        Box::new(
            ASTTreeNode::ShadowFunctionDeclaration {
                func_name: head.0,
                args: head.1,
                returnType: head.2,
            },
        ),
    )
}

/// A function declaration: its reserved word, which stands at `*ind`, its head
/// and its body, on whose `}` the index is left.
pub fn parse_function_declaraction(tokens: &Vec<LexerToken>, ind: &mut usize) -> (r:
    PositionedResult<Box<ASTTreeNode>>)
    ensures
        spec_moved(*old(ind), *final(ind), tokens@.len()),
        r matches Ok(node) ==> {
            &&& *old(ind) + 4 < *final(ind) < tokens@.len()
            &&& spec_closes(tokens@, *final(ind) as int)
            &&& *node is FunctionDeclaration
            &&& spec_declared(
                tokens@,
                *old(ind) as int,
                spec_next(tokens@, *final(ind) as int),
                *node,
            )
        },
        *old(ind) >= tokens@.len() ==> spec_fails_here(
            r,
            tokens@,
            *old(ind) as int,
            EXPECTED_TOKEN,
            *final(ind),
        ),
        *old(ind) < tokens@.len() ==> spec_head_outcome(
            r,
            tokens@,
            *old(ind) + 1,
            *final(ind),
        ),
        *old(ind) < tokens@.len() && spec_bare_head(tokens@, *old(ind) + 1) ==> {
            let k = spec_bare_head_end(tokens@, *old(ind) + 1);
            if !spec_is_at(tokens@, k, LexerTokenType::BracketOpen) {
                spec_fails_here(r, tokens@, k, EXPECTED_TOKEN, *final(ind))
            } else {
                spec_empty_body(tokens@, k) ==> r is Ok && *final(ind) == k + 1
            }
        },
        spec_lands(r, *final(ind), spec_function_end(tokens@, *old(ind) as int)),
    decreases tokens@.len() - *old(ind), 8nat,
{
    if *ind >= tokens.len() {
        return Err(error_at(tokens, *ind, EXPECTED_TOKEN));
    }
    *ind = *ind + 1;
    let head = parse_function_head(tokens, ind)?;
    proof {
        assert(spec_boundary(tokens@, *ind as int));
    }
    let body = parse_node_body(tokens, ind)?;
    Ok(
        Box::new(
            ASTTreeNode::FunctionDeclaration {
                func_name: head.0,
                args: head.1,
                body,
                returnType: head.2,
            },
        ),
    )
}

} // verus!

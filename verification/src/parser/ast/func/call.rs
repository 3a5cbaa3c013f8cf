//! Calls.

use vstd::prelude::*;
use crate::commons::err::PositionedResult;
use crate::errors::errors::{AST_ARGUMENT_SEPERATOR, EXPECTED_KEYWORD, EXPECTED_TOKEN};
use crate::lexer::token::{LexerToken, LexerTokenType};
use crate::parser::ast::{error_at, expect, expect_word, is_at, parse_ast_value, spec_error_at, spec_is_at, spec_kind_at, spec_moved};
use crate::parser::ast::grammar::{spec_arguments, spec_arguments_end, spec_names, spec_primary, spec_value, spec_word_at};
use crate::parser::ast::tree::ASTTreeNode;
use crate::utils::hash::WithHash;

verus! {

/// A call: the name of the function, which stands at `*ind`, `(`, the
/// arguments with commas between them, and `)`.
pub fn parse_function_call(tokens: &Vec<LexerToken>, ind: &mut usize) -> (r: PositionedResult<
    Box<ASTTreeNode>,
>)
    ensures
        spec_moved(*old(ind), *final(ind), tokens@.len()),
        !(spec_kind_at(tokens@, *old(ind) as int) matches Some(LexerTokenType::KEYWORD(_, _)))
            ==> r is Err && spec_error_at(r->Err_0, tokens@, *old(ind) as int, EXPECTED_KEYWORD)
            && *final(ind) == *old(ind),
        r matches Ok(node) ==> {
            &&& *old(ind) + 2 < *final(ind) <= tokens@.len()
            &&& *node is FunctionCall
            &&& spec_primary(tokens@, *old(ind) as int, *final(ind) as int, *node)
        },
        spec_word_at(tokens@, *old(ind) as int) ==> if !spec_is_at(
            tokens@,
            *old(ind) + 1,
            LexerTokenType::ParenOpen,
        ) {
            r is Err && spec_error_at(r->Err_0, tokens@, *old(ind) + 1, EXPECTED_TOKEN)
                && *final(ind) == *old(ind) + 1
        } else {
            match spec_arguments_end(tokens@, *old(ind) + 2) {
                Some(k) => r is Ok && *final(ind) == k,
                None => r is Err,
            }
        },
    decreases tokens@.len() - *old(ind), 1nat,
{
    let name = expect_word(tokens, ind)?;
    let func = WithHash::new(name.0);
    expect(tokens, ind, &LexerTokenType::ParenOpen)?;
    let mut vals: Vec<Box<ASTTreeNode>> = Vec::new();
    proof {
        assert forall|rest: Seq<Box<ASTTreeNode>>, j: int| #[trigger]
            spec_arguments(tokens@, *ind as int, j, rest) implies spec_arguments(
            tokens@,
            *old(ind) + 2,
            j,
            vals@ + rest,
        ) by {
            assert(vals@ + rest =~= rest);
        }
    }
    loop
        invariant
            *old(ind) + 1 < *ind <= tokens@.len(),
            tokens@.len() - *ind < tokens@.len() - *old(ind),
            spec_names(tokens@, *old(ind) as int, func),
            spec_is_at(tokens@, *old(ind) + 1, LexerTokenType::ParenOpen),
            spec_arguments_end(tokens@, *ind as int) == spec_arguments_end(tokens@, *old(ind) + 2),
            forall|rest: Seq<Box<ASTTreeNode>>, j: int| #[trigger]
                spec_arguments(tokens@, *ind as int, j, rest) ==> spec_arguments(
                    tokens@,
                    *old(ind) + 2,
                    j,
                    vals@ + rest,
                ),
        decreases tokens@.len() - *ind,
    {
        if is_at(tokens, *ind, &LexerTokenType::ParenClose) {
            proof {
                let none = Seq::<Box<ASTTreeNode>>::empty();
                assert(spec_arguments(tokens@, *ind as int, *ind + 1, none));
                assert(vals@ + none =~= vals@);
            }
            *ind = *ind + 1;
            return Ok(Box::new(ASTTreeNode::FunctionCall { func, args: vals }));
        }
        let ghost from = *ind as int;
        let ghost before = vals@;
        let value = parse_ast_value(tokens, ind)?;
        let ghost upto = *ind as int;
        let ghost parsed = value;
        vals.push(value);
        if is_at(tokens, *ind, &LexerTokenType::Comma) {
            *ind = *ind + 1;
            proof {
                assert forall|rest: Seq<Box<ASTTreeNode>>, j: int| #[trigger]
                    spec_arguments(tokens@, upto + 1, j, rest) implies spec_arguments(
                    tokens@,
                    *old(ind) + 2,
                    j,
                    vals@ + rest,
                ) by {
                    let whole = seq![parsed] + rest;
                    assert(whole.len() == rest.len() + 1);
                    assert(whole.subrange(1, whole.len() as int) =~= rest);
                    assert(whole[0] == parsed);
                    assert(from < upto);
                    assert(!spec_is_at(tokens@, from, LexerTokenType::ParenClose));
                    assert(spec_is_at(tokens@, upto, LexerTokenType::Comma));
                    assert(spec_value(tokens@, from, upto, *whole[0]));
                    assert(spec_arguments(tokens@, from, j, whole));
                    assert(before + whole =~= vals@ + rest);
                }
            }
        } else if !is_at(tokens, *ind, &LexerTokenType::ParenClose) {
            return Err(error_at(tokens, *ind, AST_ARGUMENT_SEPERATOR));
        } else {
            proof {
                assert forall|rest: Seq<Box<ASTTreeNode>>, j: int| #[trigger]
                    spec_arguments(tokens@, upto, j, rest) implies spec_arguments(
                    tokens@,
                    *old(ind) + 2,
                    j,
                    vals@ + rest,
                ) by {
                    assert(rest.len() == 0);
                    assert(j == upto + 1);
                    let whole = seq![parsed];
                    assert(whole.len() == 1);
                    assert(whole[0] == parsed);
                    assert(from < upto);
                    assert(!spec_is_at(tokens@, from, LexerTokenType::ParenClose));
                    assert(!spec_is_at(tokens@, upto, LexerTokenType::Comma));
                    assert(spec_value(tokens@, from, upto, *whole[0]));
                    assert(spec_arguments(tokens@, from, j, whole));
                    assert(before + whole =~= vals@ + rest);
                }
            }
        }
    }
}

} // verus!

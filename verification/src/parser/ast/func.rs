//! Functions: bodies, parameters, declarations and calls.

use vstd::prelude::*;
use crate::commons::err::PositionedResult;
use crate::errors::errors::{AST_ARGUMENT_END, EXPECTED_TOKEN, UNEXPECTED_END};
use crate::lexer::token::{LexerToken, LexerTokenType};
use crate::parser::ast::{error_at, expect, expect_word, is_at, parse_ast_node_in_body, spec_error_at, spec_fails_here, spec_is_at, spec_moved, token_at};
use crate::parser::ast::grammar::{spec_body, spec_boundary, spec_closes, spec_empty_body, spec_member, spec_members, spec_next, spec_parameters, spec_word_at};
use crate::parser::ast::outcome::{spec_body_end, spec_lands, spec_members_end, spec_parameters_end};
use crate::parser::ast::tree::{ASTTreeNode, FunctionDeclarationArgument};

pub mod call;
pub mod decl;

verus! {

/// A body: `{`, which stands at `*ind`, the members of the body, and `}`, on
/// which the index is left. The end of the file closes a body too.
pub fn parse_node_body(tokens: &Vec<LexerToken>, ind: &mut usize) -> (r: PositionedResult<
    Vec<Box<ASTTreeNode>>,
>)
    ensures
        spec_moved(*old(ind), *final(ind), tokens@.len()),
        !spec_is_at(tokens@, *old(ind) as int, LexerTokenType::BracketOpen) ==> r is Err
            && spec_error_at(r->Err_0, tokens@, *old(ind) as int, EXPECTED_TOKEN) && *final(ind)
            == *old(ind),
        r matches Ok(body) ==> *old(ind) < *final(ind) < tokens@.len() && spec_closes(
            tokens@,
            *final(ind) as int,
        ) && spec_body(tokens@, *old(ind) as int, spec_next(tokens@, *final(ind) as int), body@),
        spec_empty_body(tokens@, *old(ind) as int) ==> r is Ok && r->Ok_0@.len() == 0 && *final(ind)
            == *old(ind) + 1,
        spec_is_at(tokens@, *old(ind) as int, LexerTokenType::BracketOpen) && *old(ind) + 1
            >= tokens@.len() ==> spec_fails_here(
            r,
            tokens@,
            *old(ind) + 1,
            UNEXPECTED_END,
            *final(ind),
        ),
        spec_is_at(tokens@, *old(ind) as int, LexerTokenType::BracketOpen) && spec_is_at(
            tokens@,
            *old(ind) + 1,
            LexerTokenType::EndOfFile,
        ) ==> r is Ok && r->Ok_0@.len() == 0 && *final(ind) == *old(ind) + 1,
        spec_lands(r, *final(ind), spec_body_end(tokens@, *old(ind) as int)),
    decreases tokens@.len() - *old(ind), 7nat,
{
    expect(tokens, ind, &LexerTokenType::BracketOpen)?;
    let mut body: Vec<Box<ASTTreeNode>> = Vec::new();
    proof {
        assert forall|rest: Seq<Box<ASTTreeNode>>, j: int| #[trigger]
            spec_members(tokens@, *ind as int, j, rest) implies spec_members(
            tokens@,
            *old(ind) + 1,
            j,
            body@ + rest,
        ) by {
            assert(body@ + rest =~= rest);
        }
    }
    loop
        invariant
            *old(ind) < *ind <= tokens@.len(),
            spec_is_at(tokens@, *old(ind) as int, LexerTokenType::BracketOpen),
            *ind == *old(ind) + 1 ==> body@.len() == 0,
            spec_members_end(tokens@, *ind as int) == spec_members_end(tokens@, *old(ind) + 1),
            *ind > *old(ind) + 1 ==> *old(ind) + 1 < tokens@.len() && !spec_is_at(
                tokens@,
                *old(ind) + 1,
                LexerTokenType::BracketClose,
            ) && !spec_is_at(tokens@, *old(ind) + 1, LexerTokenType::EndOfFile),
            forall|rest: Seq<Box<ASTTreeNode>>, j: int| #[trigger]
                spec_members(tokens@, *ind as int, j, rest) ==> spec_members(
                    tokens@,
                    *old(ind) + 1,
                    j,
                    body@ + rest,
                ),
        decreases tokens@.len() - *ind,
    {
        if *ind >= tokens.len() {
            return Err(error_at(tokens, *ind, UNEXPECTED_END));
        }
        if is_at(tokens, *ind, &LexerTokenType::BracketClose) || is_at(
            tokens,
            *ind,
            &LexerTokenType::EndOfFile,
        ) {
            proof {
                let none = Seq::<Box<ASTTreeNode>>::empty();
                assert(spec_members(tokens@, *ind as int, spec_next(tokens@, *ind as int), none));
                assert(body@ + none =~= body@);
            }
            return Ok(body);
        }
        let ghost from = *ind as int;
        let ghost before = body@;
        let n = parse_ast_node_in_body(tokens, ind)?;
        let ghost parsed = n;
        if n.ends_in_body() && is_at(tokens, *ind, &LexerTokenType::BracketClose) {
            *ind = *ind + 1;
        }
        body.push(n);
        proof {
            let upto = *ind as int;
            assert forall|rest: Seq<Box<ASTTreeNode>>, j: int| #[trigger]
                spec_members(tokens@, upto, j, rest) implies spec_members(
                tokens@,
                *old(ind) + 1,
                j,
                body@ + rest,
            ) by {
                let whole = seq![parsed] + rest;
                assert(whole.len() == rest.len() + 1);
                assert(whole.subrange(1, whole.len() as int) =~= rest);
                assert(whole[0] == parsed);
                assert(spec_boundary(tokens@, upto));
                assert(spec_member(tokens@, from, upto, *whole[0]));
                assert(spec_members(tokens@, from, j, whole));
                assert(before + whole =~= body@ + rest);
            }
        }
    }
}

/// The parameters of a function declaration: `(`, which stands at `*ind`, then
/// for each parameter the name of its type and its own name, with commas
/// between the parameters. The index is left at the `)`.
pub fn parse_function_arguments(tokens: &Vec<LexerToken>, ind: &mut usize) -> (r: PositionedResult<
    Vec<FunctionDeclarationArgument>,
>)
    ensures
        spec_moved(*old(ind), *final(ind), tokens@.len()),
        !spec_is_at(tokens@, *old(ind) as int, LexerTokenType::ParenOpen) ==> r is Err
            && spec_error_at(r->Err_0, tokens@, *old(ind) as int, EXPECTED_TOKEN) && *final(ind)
            == *old(ind),
        r matches Ok(args) ==> {
            &&& *old(ind) < *final(ind) < tokens@.len()
            &&& spec_is_at(tokens@, *old(ind) as int, LexerTokenType::ParenOpen)
            &&& spec_is_at(tokens@, *final(ind) as int, LexerTokenType::ParenClose)
            &&& spec_parameters(tokens@, *old(ind) + 1, *final(ind) as int, args@)
        },
        spec_is_at(tokens@, *old(ind) as int, LexerTokenType::ParenOpen) && !spec_word_at(
            tokens@,
            *old(ind) + 1,
        ) ==> if spec_is_at(tokens@, *old(ind) + 1, LexerTokenType::ParenClose) {
            r is Ok && r->Ok_0@.len() == 0 && *final(ind) == *old(ind) + 1
        } else {
            spec_fails_here(r, tokens@, *old(ind) + 1, AST_ARGUMENT_END, *final(ind))
        },
        spec_is_at(tokens@, *old(ind) as int, LexerTokenType::ParenOpen) ==> spec_lands(
            r,
            *final(ind),
            spec_parameters_end(tokens@, *old(ind) + 1),
        ),
{
    expect(tokens, ind, &LexerTokenType::ParenOpen)?;
    let mut args: Vec<FunctionDeclarationArgument> = Vec::new();
    proof {
        assert forall|rest: Seq<FunctionDeclarationArgument>, k: int| #[trigger]
            spec_parameters(tokens@, *ind as int, k, rest) implies spec_parameters(
            tokens@,
            *old(ind) + 1,
            k,
            args@ + rest,
        ) by {
            assert(args@ + rest =~= rest);
        }
    }
    loop
        invariant
            *old(ind) < *ind <= tokens@.len(),
            spec_is_at(tokens@, *old(ind) as int, LexerTokenType::ParenOpen),
            *ind == *old(ind) + 1 ==> args@.len() == 0,
            spec_parameters_end(tokens@, *ind as int) == spec_parameters_end(
                tokens@,
                *old(ind) + 1,
            ),
            *ind > *old(ind) + 1 ==> spec_word_at(tokens@, *old(ind) + 1),
            forall|rest: Seq<FunctionDeclarationArgument>, k: int| #[trigger]
                spec_parameters(tokens@, *ind as int, k, rest) ==> spec_parameters(
                    tokens@,
                    *old(ind) + 1,
                    k,
                    args@ + rest,
                ),
        decreases tokens@.len() - *ind,
    {
        let is_word = match token_at(tokens, *ind) {
            Some(t) => t.is_keyword(),
            None => false,
        };
        if !is_word {
            if !is_at(tokens, *ind, &LexerTokenType::ParenClose) {
                return Err(error_at(tokens, *ind, AST_ARGUMENT_END));
            }
            proof {
                let none = Seq::<FunctionDeclarationArgument>::empty();
                assert(spec_parameters(tokens@, *ind as int, *ind as int, none));
                assert(args@ + none =~= args@);
            }
            return Ok(args);
        }
        let ghost from = *ind as int;
        let ghost before = args@;
        let var_type = expect_word(tokens, ind)?;
        let var_name = expect_word(tokens, ind)?;
        let arg = FunctionDeclarationArgument::new(var_name.0, var_type.1);
        let ghost parsed = arg;
        args.push(arg);
        if is_at(tokens, *ind, &LexerTokenType::Comma) {
            *ind = *ind + 1;
            proof {
                assert forall|rest: Seq<FunctionDeclarationArgument>, k: int| #[trigger]
                    spec_parameters(tokens@, from + 3, k, rest) implies spec_parameters(
                    tokens@,
                    *old(ind) + 1,
                    k,
                    args@ + rest,
                ) by {
                    let whole = seq![parsed] + rest;
                    assert(whole.len() == rest.len() + 1);
                    assert(whole.subrange(1, whole.len() as int) =~= rest);
                    assert(whole[0] == parsed);
                    assert(spec_parameters(tokens@, from, k, whole));
                    assert(before + whole =~= args@ + rest);
                }
            }
        } else {
            if !is_at(tokens, *ind, &LexerTokenType::ParenClose) {
                return Err(error_at(tokens, *ind, AST_ARGUMENT_END));
            }
            proof {
                let whole = seq![parsed];
                assert(whole.len() == 1);
                assert(whole[0] == parsed);
                assert(spec_parameters(tokens@, from, from + 2, whole));
                assert(before + whole =~= args@);
            }
            return Ok(args);
        }
    }
}

} // verus!

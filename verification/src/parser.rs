//! The parser: tokens in, syntax tree out.
//!
//! Every element of the language is a node of the syntax tree. The
//! declarations of a file are parsed one after the other and handed on, by
//! name, to the stage that lowers them.

use vstd::prelude::*;
use crate::commons::err::PositionedResult;
use crate::errors::errors::AST_NOT_PERMISSIBLE;
use crate::lexer::token::{LexerToken, LexerTokenType};
use crate::commons::utils::map::spec_put;
use crate::parser::ast::{error_at, is_at, parse_ast_node, spec_is_at};
use crate::parser::ast::grammar::{spec_boundary, spec_declaration};
use crate::parser::ast::tree::ASTTreeNode;
use crate::utils::hash::spec_name_hash;
use crate::parser::ast::outcome::spec_file_parses;
use crate::parser::ctx::ParserCtx;

pub mod ast;
pub mod ctx;

verus! {

/// Whether the tokens from `i` on, up to the token that marks the end of the
/// file, spell these declarations, in this order.
pub open spec fn spec_file(tokens: Seq<LexerToken>, i: int, decls: Seq<Box<ASTTreeNode>>) -> bool
    decreases decls.len(),
{
    if decls.len() == 0 {
        i >= tokens.len() || spec_is_at(tokens, i, LexerTokenType::EndOfFile)
    } else {
        0 <= i < tokens.len() && !spec_is_at(tokens, i, LexerTokenType::EndOfFile) && exists|
            k: int,
        | #[trigger]
            spec_boundary(tokens, k) && i < k && spec_declaration(tokens, i, k, *decls[0])
                && spec_file(tokens, k, decls.subrange(1, decls.len() as int))
    }
}

/// The declarations of a list by the hash of their name. Of two with the same
/// name the later one is kept.
pub open spec fn spec_collected(decls: Seq<Box<ASTTreeNode>>) -> Map<u64, Box<ASTTreeNode>>
    decreases decls.len(),
{
    if decls.len() == 0 {
        Map::empty()
    } else {
        spec_put(
            spec_collected(decls.drop_last()),
            spec_name_hash(decls.last().spec_tree_name()->Some_0),
            decls.last(),
        )
    }
}

/// Whether a list of names holds the names of the declarations of a list, in
/// their order.
pub open spec fn spec_named(order: Seq<String>, decls: Seq<Box<ASTTreeNode>>) -> bool {
    order.len() == decls.len() && forall|i: int|
        0 <= i < order.len() ==> Some((#[trigger] order[i])@) == decls[i].spec_tree_name()
}

/// Parses the declarations of a file, up to the token that marks its end. What
/// comes back holds the declarations that the tokens spell: each under the
/// hash of its name, and their names in the order of the file.
pub fn parse_ast_ctx(tokens: &Vec<LexerToken>) -> (r: PositionedResult<ParserCtx>)
    ensures
        r matches Ok(ctx) ==> ctx.spec_wf() && exists|decls: Seq<Box<ASTTreeNode>>| #[trigger]
            spec_file(tokens@, 0, decls) && ctx.map@ == spec_collected(decls) && spec_named(
                ctx.iter_order@,
                decls,
            ),
        tokens@.len() > 0 && !spec_is_at(tokens@, 0, LexerTokenType::EndOfFile) && !spec_is_at(
            tokens@,
            0,
            LexerTokenType::Function,
        ) && !spec_is_at(tokens@, 0, LexerTokenType::Struct) && !spec_is_at(
            tokens@,
            0,
            LexerTokenType::Layout,
        ) ==> r is Err && crate::parser::ast::spec_error_at(
            r->Err_0,
            tokens@,
            0,
            crate::errors::errors::AST_CONTEXT_TOKEN,
        ),
        r is Ok <==> spec_file_parses(tokens@, 0),
        tokens@.len() == 0 || spec_is_at(tokens@, 0, LexerTokenType::EndOfFile) ==> r is Ok
            && r->Ok_0.iter_order@.len() == 0 && r->Ok_0.map@ == Map::<
            u64,
            Box<ASTTreeNode>,
        >::empty(),
{
    let mut ind: usize = 0;
    let mut ctx = ParserCtx::new();
    let ghost mut decls: Seq<Box<ASTTreeNode>> = Seq::empty();
    proof {
        assert forall|rest: Seq<Box<ASTTreeNode>>| #[trigger]
            spec_file(tokens@, ind as int, rest) implies spec_file(tokens@, 0, decls + rest) by {
            assert(decls + rest =~= rest);
        }
    }
    while ind < tokens.len() && !is_at(tokens, ind, &LexerTokenType::EndOfFile)
        invariant
            ind <= tokens@.len(),
            ctx.spec_wf(),
            spec_file_parses(tokens@, ind as int) == spec_file_parses(tokens@, 0),
            ind == 0 ==> ctx.iter_order@.len() == 0 && ctx.map@ == Map::<
                u64,
                Box<ASTTreeNode>,
            >::empty(),
            ctx.map@ == spec_collected(decls),
            spec_named(ctx.iter_order@, decls),
            forall|rest: Seq<Box<ASTTreeNode>>| #[trigger]
                spec_file(tokens@, ind as int, rest) ==> spec_file(tokens@, 0, decls + rest),
            ind > 0 ==> tokens@.len() > 0 && !spec_is_at(tokens@, 0, LexerTokenType::EndOfFile)
                && (spec_is_at(tokens@, 0, LexerTokenType::Function) || spec_is_at(
                tokens@,
                0,
                LexerTokenType::Struct,
            ) || spec_is_at(tokens@, 0, LexerTokenType::Layout)),
        decreases tokens@.len() - ind,
    {
        let ghost from = ind as int;
        let ghost before = decls;
        let node = parse_ast_node(tokens, &mut ind)?;
        let ghost parsed = node;
        let name = match node.get_tree_name() {
            Some(n) => n,
            None => {
                return Err(error_at(tokens, ind - 1, AST_NOT_PERMISSIBLE));
            },
        };
        if !ctx.insert(name.val, node) {
            return Err(error_at(tokens, ind - 1, AST_NOT_PERMISSIBLE));
        }
        if is_at(tokens, ind, &LexerTokenType::BracketClose) {
            ind = ind + 1;
        }
        proof {
            decls = decls.push(parsed);
            assert(decls.drop_last() =~= before);
            assert(decls.last() == parsed);
            let upto = ind as int;
            assert forall|rest: Seq<Box<ASTTreeNode>>| #[trigger]
                spec_file(tokens@, upto, rest) implies spec_file(tokens@, 0, decls + rest) by {
                let whole = seq![parsed] + rest;
                assert(whole.len() == rest.len() + 1);
                assert(whole.subrange(1, whole.len() as int) =~= rest);
                assert(whole[0] == parsed);
                assert(spec_boundary(tokens@, upto));
                assert(spec_declaration(tokens@, from, upto, *whole[0]));
                assert(spec_file(tokens@, from, whole));
                assert(before + whole =~= decls + rest);
            }
        }
    }
    proof {
        let none = Seq::<Box<ASTTreeNode>>::empty();
        assert(spec_file(tokens@, ind as int, none));
        assert(decls + none =~= decls);
        assert(spec_file(tokens@, 0, decls));
    }
    Ok(ctx)
}

} // verus!

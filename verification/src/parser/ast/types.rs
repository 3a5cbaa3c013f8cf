//! Struct and layout declarations.

use vstd::prelude::*;
use crate::commons::err::PositionedResult;
use crate::errors::errors::{EXPECTED_KEYWORD, EXPECTED_TOKEN};
use crate::lexer::token::{LexerToken, LexerTokenType};
use crate::parser::ast::{error_at, expect, expect_word, is_at, spec_error_at, spec_fails_here, spec_is_at, spec_kind_at, spec_moved};
use crate::parser::ast::grammar::{spec_declared, spec_field, spec_fields, spec_names, spec_word_at};
use crate::parser::ast::tree::ASTTreeNode;
use crate::utils::hash::WithHash;

verus! {

/// A field of a struct or layout: the name of its type, which stands at
/// `*ind`, and its own name.
pub fn parse_types_field_member(tokens: &Vec<LexerToken>, ind: &mut usize) -> (r: PositionedResult<
    Box<ASTTreeNode>,
>)
    ensures
        spec_moved(*old(ind), *final(ind), tokens@.len()),
        match (
            spec_kind_at(tokens@, *old(ind) as int),
            spec_kind_at(tokens@, *old(ind) + 1),
        ) {
            (
                Some(LexerTokenType::KEYWORD(_, type_hash)),
                Some(LexerTokenType::KEYWORD(field, _)),
            ) => r is Ok && *final(ind) == *old(ind) + 2 && match *r->Ok_0 {
                ASTTreeNode::StructFieldMember { name, member_type } => name.val@ == field@
                    && name.in_step() && member_type == type_hash,
                _ => false,
            },
            (Some(LexerTokenType::KEYWORD(_, _)), _) => r is Err && spec_error_at(
                r->Err_0,
                tokens@,
                *old(ind) + 1,
                EXPECTED_KEYWORD,
            ),
            _ => r is Err && spec_error_at(r->Err_0, tokens@, *old(ind) as int, EXPECTED_KEYWORD),
        },
{
    let named_type = expect_word(tokens, ind)?;
    let field_name = expect_word(tokens, ind)?;
    Ok(
        Box::new(
            ASTTreeNode::StructFieldMember {
                name: WithHash::new(field_name.0),
                member_type: named_type.1,
            },
        ),
    )
}

/// Where the fields end that start at `i`: the first place, two tokens on
/// from `i` each time, at which `}` stands or at which no two words stand.
pub open spec fn spec_fields_stop(tokens: Seq<LexerToken>, i: int) -> int
    decreases tokens.len() - i,
{
    if 0 <= i < tokens.len() && !spec_is_at(tokens, i, LexerTokenType::BracketClose)
        && spec_word_at(tokens, i) && spec_word_at(tokens, i + 1) {
        spec_fields_stop(tokens, i + 2)
    } else {
        i
    }
}

/// What the declaration of a struct or a layout comes to whose reserved word
/// stands at `i`; the tokens decide it. It fails at what stands in place of
/// its name or of `{`. After `{` it takes fields, each of two words, up to
/// `}`, and succeeds there; where something else stands in place of a field it
/// fails, at the first of the two places at which no word stands.
pub open spec fn spec_type_outcome(
    r: PositionedResult<Box<ASTTreeNode>>,
    tokens: Seq<LexerToken>,
    i: int,
    after: usize,
) -> bool {
    if !spec_word_at(tokens, i + 1) {
        spec_fails_here(r, tokens, i + 1, EXPECTED_KEYWORD, after)
    } else if !spec_is_at(tokens, i + 2, LexerTokenType::BracketOpen) {
        spec_fails_here(r, tokens, i + 2, EXPECTED_TOKEN, after)
    } else {
        let stop = spec_fields_stop(tokens, i + 3);
        if spec_is_at(tokens, stop, LexerTokenType::BracketClose) {
            r is Ok && after == stop
        } else if !spec_word_at(tokens, stop) {
            r is Err && spec_error_at(r->Err_0, tokens, stop, EXPECTED_KEYWORD)
        } else {
            r is Err && spec_error_at(r->Err_0, tokens, stop + 1, EXPECTED_KEYWORD)
        }
    }
}

/// The declaration of a struct or a layout: its reserved word, which stands
/// at `*ind`, its name, `{`, its fields and `}`, on which the index is left.
pub fn parse_type_declaration(tokens: &Vec<LexerToken>, ind: &mut usize, layout: bool) -> (r:
    PositionedResult<Box<ASTTreeNode>>)
    ensures
        spec_moved(*old(ind), *final(ind), tokens@.len()),
        r matches Ok(node) ==> {
            &&& *old(ind) + 3 <= *final(ind) < tokens@.len()
            &&& spec_is_at(tokens@, *final(ind) as int, LexerTokenType::BracketClose)
            &&& spec_declared(tokens@, *old(ind) as int, *final(ind) + 1, *node)
            &&& match *node {
                ASTTreeNode::StructLayoutDeclaration { name: _, layout: l, members } => l
                    == layout && *final(ind) == *old(ind) + 3 + 2 * members@.len(),
                _ => false,
            }
        },
        *old(ind) >= tokens@.len() ==> spec_fails_here(
            r,
            tokens@,
            *old(ind) as int,
            EXPECTED_TOKEN,
            *final(ind),
        ),
        *old(ind) < tokens@.len() ==> spec_type_outcome(
            r,
            tokens@,
            *old(ind) as int,
            *final(ind),
        ),
        crate::parser::ast::outcome::spec_lands(
            r,
            *final(ind),
            crate::parser::ast::outcome::spec_type_end(tokens@, *old(ind) as int),
        ),
{
    if *ind >= tokens.len() {
        return Err(error_at(tokens, *ind, EXPECTED_TOKEN));
    }
    *ind = *ind + 1;
    let named_type = expect_word(tokens, ind)?;
    expect(tokens, ind, &LexerTokenType::BracketOpen)?;
    let mut members: Vec<Box<ASTTreeNode>> = Vec::new();
    let name = WithHash::new(named_type.0);
    proof {
        assert forall|rest: Seq<Box<ASTTreeNode>>, j: int| #[trigger]
            spec_fields(tokens@, *ind as int, j, rest) implies spec_fields(
            tokens@,
            *old(ind) + 3,
            j,
            members@ + rest,
        ) by {
            assert(members@ + rest =~= rest);
        }
    }
    while !is_at(tokens, *ind, &LexerTokenType::BracketClose)
        invariant
            *ind == *old(ind) + 3 + 2 * members@.len(),
            *ind <= tokens@.len(),
            *old(ind) < tokens@.len(),
            spec_word_at(tokens@, *old(ind) + 1),
            spec_fields_stop(tokens@, *ind as int) == spec_fields_stop(tokens@, *old(ind) + 3),
            spec_names(tokens@, *old(ind) + 1, name),
            spec_is_at(tokens@, *old(ind) + 2, LexerTokenType::BracketOpen),
            forall|rest: Seq<Box<ASTTreeNode>>, j: int| #[trigger]
                spec_fields(tokens@, *ind as int, j, rest) ==> spec_fields(
                    tokens@,
                    *old(ind) + 3,
                    j,
                    members@ + rest,
                ),
        decreases tokens@.len() - *ind,
    {
        let ghost from = *ind as int;
        let ghost before = members@;
        let member = parse_types_field_member(tokens, ind)?;
        let ghost parsed = member;
        members.push(member);
        proof {
            assert forall|rest: Seq<Box<ASTTreeNode>>, j: int| #[trigger]
                spec_fields(tokens@, from + 2, j, rest) implies spec_fields(
                tokens@,
                *old(ind) + 3,
                j,
                members@ + rest,
            ) by {
                let whole = seq![parsed] + rest;
                assert(whole.len() == rest.len() + 1);
                assert(whole.subrange(1, whole.len() as int) =~= rest);
                assert(whole[0] == parsed);
                assert(spec_field(tokens@, from, *whole[0]));
                assert(spec_fields(tokens@, from, j, whole));
                assert(before + whole =~= members@ + rest);
            }
        }
    }
    proof {
        let none = Seq::<Box<ASTTreeNode>>::empty();
        assert(spec_fields(tokens@, *ind as int, *ind + 1, none));
        assert(members@ + none =~= members@);
    }
    Ok(
        Box::new(
            ASTTreeNode::StructLayoutDeclaration {
                name,
                layout,
                members,
            },
        ),
    )
}

} // verus!

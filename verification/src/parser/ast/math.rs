//! Arithmetic.

use vstd::prelude::*;
use crate::commons::err::PositionedResult;
use crate::errors::errors::{AST_MATH_ASSIGN, EXPECTED_MATH_OPERATOR};
use crate::lexer::token::{LexerToken, LexerTokenType};
use crate::parser::ast::{error_at, parse_ast_value, spec_error_at, spec_kind_at, spec_moved, token_at};
use crate::parser::ast::grammar::{spec_after, spec_comes_to, spec_primary, spec_shape, spec_value};
use crate::parser::ast::tree::ASTTreeNode;

verus! {

/// An arithmetic operation whose left operand, `operand`, was parsed already
/// and whose operator stands at `*ind`. With `restricts_to_assigns` the
/// operator must be one that assigns.
pub fn parse_math_operation(
    tokens: &Vec<LexerToken>,
    ind: &mut usize,
    operand: Box<ASTTreeNode>,
    restricts_to_assigns: bool,
) -> (r: PositionedResult<Box<ASTTreeNode>>)
    ensures
        spec_moved(*old(ind), *final(ind), tokens@.len()),
        match spec_kind_at(tokens@, *old(ind) as int) {
            Some(LexerTokenType::MathOperator(op, assigns)) => {
                &&& !assigns && restricts_to_assigns ==> r is Err && spec_error_at(
                    r->Err_0,
                    tokens@,
                    *old(ind) as int,
                    AST_MATH_ASSIGN,
                ) && *final(ind) == *old(ind)
                &&& r matches Ok(node) ==> *old(ind) + 1 < *final(ind) && (match *node {
                    ASTTreeNode::MathResult { lval, rval: _, operator, assigns: a } => lval
                        == operand && operator == op && a == assigns,
                    _ => false,
                }) && forall|start: int| #[trigger]
                    spec_primary(tokens@, start, *old(ind) as int, *operand) ==> spec_value(
                        tokens@,
                        start,
                        *final(ind) as int,
                        *node,
                    )
            },
            _ => r is Err && spec_error_at(
                r->Err_0,
                tokens@,
                *old(ind) as int,
                EXPECTED_MATH_OPERATOR,
            ) && *final(ind) == *old(ind),
        },
        spec_kind_at(tokens@, *old(ind) as int) matches Some(LexerTokenType::MathOperator(_, _))
            ==> spec_comes_to(
            r,
            *final(ind),
            spec_after(tokens@, *old(ind) as int, spec_shape(*operand), restricts_to_assigns),
        ),
    decreases tokens@.len() - *old(ind), 2nat,
{
    let oper = match token_at(tokens, *ind) {
        Some(t) => match t.expects_math_operator() {
            Ok(o) => o,
            Err(_) => {
                return Err(error_at(tokens, *ind, EXPECTED_MATH_OPERATOR));
            },
        },
        None => {
            return Err(error_at(tokens, *ind, EXPECTED_MATH_OPERATOR));
        },
    };
    if !oper.1 && restricts_to_assigns {
        return Err(error_at(tokens, *ind, AST_MATH_ASSIGN));
    }
    let ghost at = *ind as int;
    *ind = *ind + 1;
    let right_member = parse_ast_value(tokens, ind)?;
    let ghost left = operand;
    let ghost right = right_member;
    let node = Box::new(
        ASTTreeNode::MathResult {
            lval: operand,
            rval: right_member,
            operator: oper.0,
            assigns: oper.1,
        },
    );
    proof {
        assert forall|start: int| #[trigger]
            spec_primary(tokens@, start, at, *left) implies spec_value(
            tokens@,
            start,
            *ind as int,
            *node,
        ) by {
            assert(spec_kind_at(tokens@, at) == Some(
                LexerTokenType::MathOperator(oper.0, oper.1),
            ));
            assert(spec_value(tokens@, at + 1, *ind as int, *right));
            assert(*node == ASTTreeNode::MathResult {
                lval: left,
                rval: right,
                operator: oper.0,
                assigns: oper.1,
            });
            assert(spec_primary(tokens@, start, at, *left));
        }
    }
    Ok(node)
}

} // verus!

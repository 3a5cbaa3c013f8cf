//! The syntax tree and the rules that build it from tokens.
//!
//! Every rule takes the tokens and the index of the token at which it starts,
//! and leaves the index after the last token that it took. A rule that starts
//! with a reserved word is entered at that word. No rule reads a token that is
//! not there: where the tokens end too early the rule fails at the last token.

use vstd::prelude::*;
use crate::commons::Position;
use crate::commons::err::{PositionedError, PositionedResult, same_place};
use crate::errors::errors::{AST_CONTEXT_TOKEN, AST_DOT_ACCESS, AST_DOT_ACCESS_KIND, AST_NEGATION, AST_VALUE_TOKEN, EXPECTED_TOKEN};
use crate::lexer::token::{LexerToken, LexerTokenType};
use crate::parser::ast::control::forloop::parse_for_loop;
use crate::parser::ast::control::ifelse::parse_if_statement;
use crate::parser::ast::control::whileblock::parse_while_block;
use crate::parser::ast::func::call::parse_function_call;
pub use crate::parser::ast::grammar::{spec_is_at, spec_kind_at};
use crate::parser::ast::grammar::{spec_closes, spec_next, spec_continues, spec_declaration, spec_member, spec_name_statement, spec_after, spec_comes_to, spec_plain_value, spec_primary, spec_shape, spec_span_end, spec_starts_value, spec_statement_end, spec_value, spec_value_end, spec_word_at};
use crate::parser::ast::func::decl::parse_function_declaraction;
use crate::parser::ast::literals::{parse_integer_literal, parse_string_literal};
use crate::parser::ast::math::parse_math_operation;
use crate::parser::ast::outcome::{spec_block_at, spec_declaration_end, spec_lands, spec_member_end};
use crate::parser::ast::tree::ASTTreeNode;
use crate::parser::ast::types::parse_type_declaration;
use crate::parser::ast::var::decl::parse_variable_declaration;
use crate::utils::hash::WithHash;

pub mod cond;
pub mod control;
pub mod func;
pub mod grammar;
pub mod outcome;
pub mod literals;
pub mod math;
pub mod tree;
pub mod types;
pub mod var;

verus! {

/// Whether an error points at the token at `i`, or at the last token where
/// there is none at `i`, and gives `message` as its reason.
pub open spec fn spec_error_at(
    e: PositionedError,
    tokens: Seq<LexerToken>,
    i: int,
    message: &str,
) -> bool {
    &&& e.reason@ == message@
    &&& 0 <= i < tokens.len() ==> same_place(e.start, tokens[i].pos) && same_place(
        e.end,
        tokens[i].end_pos,
    )
    &&& tokens.len() > 0 && i >= tokens.len() ==> same_place(e.start, tokens.last().pos)
        && same_place(e.end, tokens.last().end_pos)
}

/// A rule failed at the token at `at`, for the reason that `message` gives,
/// and left the index there.
pub open spec fn spec_fails_here<K>(
    r: PositionedResult<K>,
    tokens: Seq<LexerToken>,
    at: int,
    message: &str,
    after: usize,
) -> bool {
    r is Err && spec_error_at(r->Err_0, tokens, at, message) && after == at
}

/// A rule that failed left the index where it was or further on, and within
/// the tokens if it was within them.
pub open spec fn spec_moved(before: usize, after: usize, len: nat) -> bool {
    before <= after && (before <= len ==> after <= len)
}

/// A rule that succeeded took one token at least.
pub open spec fn spec_advanced(before: usize, after: usize, len: nat) -> bool {
    before < after <= len
}

/// The token at `ind`, if there is one.
pub fn token_at(tokens: &Vec<LexerToken>, ind: usize) -> (r: Option<&LexerToken>)
    ensures
        tokens@.len() <= usize::MAX,
        match r {
            Some(t) => ind < tokens@.len() && *t == tokens@[ind as int],
            None => ind >= tokens@.len(),
        },
{
    if ind < tokens.len() {
        Some(&tokens[ind])
    } else {
        None
    }
}

/// An error at the token at `ind`; at the last token if the tokens end before
/// `ind`.
pub fn error_at(tokens: &Vec<LexerToken>, ind: usize, message: &str) -> (r: PositionedError)
    ensures
        spec_error_at(r, tokens@, ind as int, message),
        tokens@.len() <= usize::MAX,
{
    if ind < tokens.len() {
        tokens[ind].make_err(message)
    } else if tokens.len() > 0 {
        tokens[tokens.len() - 1].make_err(message)
    } else {
        PositionedError::new(
            Position::new("".to_string(), 0, 0),
            Position::new("".to_string(), 0, 0),
            message.to_string(),
        )
    }
}

/// Whether the token at `ind` is there and of kind `kind`.
pub fn is_at(tokens: &Vec<LexerToken>, ind: usize, kind: &LexerTokenType) -> (r: bool)
    ensures
        r == spec_is_at(tokens@, ind as int, *kind),
        tokens@.len() <= usize::MAX,
{
    match token_at(tokens, ind) {
        Some(t) => t.tok_type.same_as(kind),
        None => false,
    }
}

/// Takes the token at `*ind` if it is of kind `kind`; fails at it otherwise.
pub fn expect(tokens: &Vec<LexerToken>, ind: &mut usize, kind: &LexerTokenType) -> (r:
    PositionedResult<bool>)
    ensures
        tokens@.len() <= usize::MAX,
        spec_is_at(tokens@, *old(ind) as int, *kind) ==> r == Ok::<bool, PositionedError>(true)
            && *final(ind) == *old(ind) + 1,
        !spec_is_at(tokens@, *old(ind) as int, *kind) ==> r is Err && spec_error_at(
            r->Err_0,
            tokens@,
            *old(ind) as int,
            EXPECTED_TOKEN,
        ) && *final(ind) == *old(ind),
{
    if is_at(tokens, *ind, kind) {
        *ind = *ind + 1;
        Ok(true)
    } else {
        Err(error_at(tokens, *ind, EXPECTED_TOKEN))
    }
}

/// Takes the word at `*ind`: its text and its hash.
pub fn expect_word(tokens: &Vec<LexerToken>, ind: &mut usize) -> (r: PositionedResult<
    (String, u64),
>)
    ensures
        tokens@.len() <= usize::MAX,
        match spec_kind_at(tokens@, *old(ind) as int) {
            Some(LexerTokenType::KEYWORD(s, h)) => r is Ok && r->Ok_0.0@ == s@ && r->Ok_0.1 == h
                && *final(ind) == *old(ind) + 1,
            _ => r is Err && spec_error_at(
                r->Err_0,
                tokens@,
                *old(ind) as int,
                crate::errors::errors::EXPECTED_KEYWORD,
            ) && *final(ind) == *old(ind),
        },
{
    match token_at(tokens, *ind) {
        Some(t) => {
            let word = t.expects_keyword()?;
            *ind = *ind + 1;
            Ok(word)
        },
        None => Err(error_at(tokens, *ind, crate::errors::errors::EXPECTED_KEYWORD)),
    }
}

/// What the rules that continue a value make of it: they hand it back as it
/// is, or wrap it in a node of their own, for which they take tokens.
pub open spec fn spec_extended(
    operand: PositionedResult<Box<ASTTreeNode>>,
    r: PositionedResult<Box<ASTTreeNode>>,
    before: usize,
    after: usize,
) -> bool {
    r matches Ok(node) ==> operand is Ok && ((r == operand && after == before) || (before + 1
        < after && (*node is MathResult || *node is OperatorBasedConditionMember
        || *node is StructLRFunction || *node is StructLRVariable)))
}

/// The right side of a dot access. `operand` is the left side, which must be
/// a variable or a call; what follows the dot must be a variable, which names
/// a field, or a call, which goes to a member function. Where no dot stands
/// at `*ind`, `operand` is handed back.
pub fn parse_ast_value_dotacess(
    tokens: &Vec<LexerToken>,
    ind: &mut usize,
    operand: PositionedResult<Box<ASTTreeNode>>,
) -> (r: PositionedResult<Box<ASTTreeNode>>)
    ensures
        spec_moved(*old(ind), *final(ind), tokens@.len()),
        !spec_is_at(tokens@, *old(ind) as int, LexerTokenType::Dot) ==> r == operand && *final(ind) == *old(ind),
        spec_extended(operand, r, *old(ind), *final(ind)),
        spec_is_at(tokens@, *old(ind) as int, LexerTokenType::Dot) ==> {
            &&& operand is Err ==> r == operand && *final(ind) == *old(ind)
            &&& operand matches Ok(o) ==> {
                &&& !(o.spec_is_function_call() || o.spec_is_var_access()) ==> r is Err
                    && spec_error_at(r->Err_0, tokens@, *old(ind) as int, AST_DOT_ACCESS)
                    && *final(ind) == *old(ind)
                &&& spec_comes_to(
                    r,
                    *final(ind),
                    spec_after(tokens@, *old(ind) as int, spec_shape(*o), false),
                )
                &&& r matches Ok(node) ==> *old(ind) + 1 < *final(ind) && (match *node {
                    ASTTreeNode::StructLRFunction { l, r: right } => l == o
                        && right.spec_is_function_call(),
                    ASTTreeNode::StructLRVariable { l, r: right } => l == o
                        && right.spec_is_var_access(),
                    _ => false,
                }) && forall|start: int| #[trigger]
                    spec_primary(tokens@, start, *old(ind) as int, *o) ==> spec_value(
                        tokens@,
                        start,
                        *final(ind) as int,
                        *node,
                    )
            }
        },
    decreases tokens@.len() - *old(ind), 2nat,
{
    if !is_at(tokens, *ind, &LexerTokenType::Dot) {
        return operand;
    }
    let o = operand?;
    if !o.is_function_call() && !o.is_var_access() {
        return Err(error_at(tokens, *ind, AST_DOT_ACCESS));
    }
    let ghost at = *ind as int;
    let ghost left = o;
    *ind = *ind + 1;
    let r = parse_ast_value(tokens, ind)?;
    if r.is_function_call() {
        let node = Box::new(ASTTreeNode::StructLRFunction { l: o, r });
        proof {
            assert forall|start: int| #[trigger]
                spec_primary(tokens@, start, at, *left) implies spec_value(
                tokens@,
                start,
                *ind as int,
                *node,
            ) by {
                assert(spec_primary(tokens@, start, at, *left));
            }
        }
        return Ok(node);
    } else if r.is_var_access() {
        let node = Box::new(ASTTreeNode::StructLRVariable { l: o, r });
        proof {
            assert forall|start: int| #[trigger]
                spec_primary(tokens@, start, at, *left) implies spec_value(
                tokens@,
                start,
                *ind as int,
                *node,
            ) by {
                assert(spec_primary(tokens@, start, at, *left));
            }
        }
        return Ok(node);
    }
    Err(error_at(tokens, *ind, AST_DOT_ACCESS_KIND))
}

/// What follows a value: a dot access, an arithmetic operator with its right
/// operand, or a comparing operator with its right operand. Where none of them
/// stands at `*ind`, `operand` is handed back.
///
/// With `invoked_on_body` the value stands as a statement, where arithmetic is
/// allowed only if it assigns.
pub fn parse_ast_value_post_l(
    tokens: &Vec<LexerToken>,
    ind: &mut usize,
    operand: PositionedResult<Box<ASTTreeNode>>,
    invoked_on_body: bool,
) -> (r: PositionedResult<Box<ASTTreeNode>>)
    ensures
        spec_moved(*old(ind), *final(ind), tokens@.len()),
        match spec_kind_at(tokens@, *old(ind) as int) {
            Some(LexerTokenType::Dot) => true,
            Some(LexerTokenType::MathOperator(op, assigns)) => {
                &&& operand is Err ==> r == operand && *final(ind) == *old(ind)
                &&& operand is Ok && !assigns && invoked_on_body ==> r is Err
                &&& operand matches Ok(o) ==> (r matches Ok(node) ==> *old(ind) + 1 < *final(ind) && match *node {
                    ASTTreeNode::MathResult { lval, rval: _, operator, assigns: a } => lval == o
                        && operator == op && a == assigns,
                    _ => false,
                })
            },
            Some(LexerTokenType::ComparingOperator(op)) => {
                &&& operand is Err ==> r == operand && *final(ind) == *old(ind)
                &&& operand matches Ok(o) ==> (r matches Ok(node) ==> *old(ind) + 1 < *final(ind) && match *node {
                    ASTTreeNode::OperatorBasedConditionMember { lval, rval: _, operator } => lval
                        == o && operator == op,
                    _ => false,
                })
            },
            _ => r == operand && *final(ind) == *old(ind),
        },
        operand is Err ==> r is Err,
        spec_extended(operand, r, *old(ind), *final(ind)),
        operand matches Ok(o) ==> spec_comes_to(
            r,
            *final(ind),
            spec_after(tokens@, *old(ind) as int, spec_shape(*o), invoked_on_body),
        ),
        operand matches Ok(o) ==> (r matches Ok(node) ==> forall|start: int| #[trigger]
            spec_primary(tokens@, start, *old(ind) as int, *o) ==> spec_value(
                tokens@,
                start,
                *final(ind) as int,
                *node,
            )),
        invoked_on_body ==> (r matches Ok(node) ==> (*node matches ASTTreeNode::MathResult {
            lval: _,
            rval: _,
            operator: _,
            assigns,
        } ==> assigns || r == operand)),
    decreases tokens@.len() - *old(ind), 3nat,
{
    let kind = match token_at(tokens, *ind) {
        Some(t) => &t.tok_type,
        None => {
            proof {
                assert(!spec_continues(tokens@, *ind as int));
            }
            return operand;
        },
    };
    match kind {
        LexerTokenType::Dot => parse_ast_value_dotacess(tokens, ind, operand),
        LexerTokenType::MathOperator(_, _) => {
            let o = operand?;
            parse_math_operation(tokens, ind, o, invoked_on_body)
        },
        LexerTokenType::ComparingOperator(op) => {
            let operator = *op;
            let o = operand?;
            let ghost at = *ind as int;
            let ghost left = o;
            *ind = *ind + 1;
            let right_val = parse_ast_value(tokens, ind)?;
            let node = Box::new(
                ASTTreeNode::OperatorBasedConditionMember { lval: o, rval: right_val, operator },
            );
            proof {
                assert forall|start: int| #[trigger]
                    spec_primary(tokens@, start, at, *left) implies spec_value(
                    tokens@,
                    start,
                    *ind as int,
                    *node,
                ) by {
                    assert(spec_primary(tokens@, start, at, *left));
                }
            }
            Ok(node)
        },
        _ => {
            proof {
                assert(!spec_continues(tokens@, *ind as int));
            }
            operand
        },
    }
}

/// Whether a node is one that `parse_ast_value` yields.
pub open spec fn spec_is_value(node: ASTTreeNode) -> bool {
    node is IntegerLit || node is StringLit || node is VariableReference || node is FunctionCall
        || node is MathResult || node is OperatorBasedConditionMember
        || node is BooleanBasedConditionMember || node is StructLRFunction
        || node is StructLRVariable
}

/// A value: a literal, a variable, a call, the negation of a variable or a
/// call, and whatever follows it (see `parse_ast_value_post_l`).
pub fn parse_ast_value(tokens: &Vec<LexerToken>, ind: &mut usize) -> (r: PositionedResult<
    Box<ASTTreeNode>,
>)
    ensures
        spec_moved(*old(ind), *final(ind), tokens@.len()),
        r matches Ok(node) ==> spec_advanced(*old(ind), *final(ind), tokens@.len())
            && spec_is_value(*node) && spec_value(
            tokens@,
            *old(ind) as int,
            *final(ind) as int,
            *node,
        ),
        match spec_kind_at(tokens@, *old(ind) as int) {
            Some(LexerTokenType::ExclamationMark) => r matches Ok(node) ==> match *node {
                ASTTreeNode::BooleanBasedConditionMember { val, negate } => negate && (
                val.spec_is_function_call() || val.spec_is_var_access()),
                _ => false,
            },
            Some(LexerTokenType::IntLit(_)) => true,
            Some(LexerTokenType::StringLit(_)) => true,
            Some(LexerTokenType::KEYWORD(_, _)) => true,
            _ => r is Err && spec_error_at(r->Err_0, tokens@, *old(ind) as int, AST_VALUE_TOKEN)
                && *final(ind) == *old(ind),
        },
        !spec_starts_value(tokens@, *old(ind) as int) ==> spec_fails_here(
            r,
            tokens@,
            *old(ind) as int,
            AST_VALUE_TOKEN,
            *final(ind),
        ),
        spec_plain_value(tokens@, *old(ind) as int) ==> r is Ok && *final(ind) == *old(ind) + 1,
        spec_comes_to(r, *final(ind), spec_value_end(tokens@, *old(ind) as int)),
    decreases tokens@.len() - *old(ind), 4nat,
{
    let kind = match token_at(tokens, *ind) {
        Some(t) => &t.tok_type,
        None => {
            return Err(error_at(tokens, *ind, AST_VALUE_TOKEN));
        },
    };
    match kind {
        LexerTokenType::ExclamationMark => {
            *ind = *ind + 1;
            let ast = parse_ast_value(tokens, ind)?;
            if ast.is_function_call() || ast.is_var_access() {
                return Ok(
                    Box::new(ASTTreeNode::BooleanBasedConditionMember { val: ast, negate: true }),
                );
            }
            Err(error_at(tokens, *ind, AST_NEGATION))
        },
        LexerTokenType::IntLit(_) => {
            let ghost start = *ind as int;
            let literal = parse_integer_literal(tokens, ind);
            proof {
                assert(spec_primary(tokens@, start, *ind as int, *literal->Ok_0));
            }
            let r = parse_ast_value_post_l(tokens, ind, literal, false);
            r
        },
        LexerTokenType::StringLit(_) => {
            let ghost start = *ind as int;
            let literal = parse_string_literal(tokens, ind);
            proof {
                assert(spec_primary(tokens@, start, *ind as int, *literal->Ok_0));
            }
            let r = parse_ast_value_post_l(tokens, ind, literal, false);
            r
        },
        LexerTokenType::KEYWORD(str, _) => {
            let ghost start = *ind as int;
            if is_at(tokens, *ind + 1, &LexerTokenType::ParenOpen) {
                let call = parse_function_call(tokens, ind);
                if call.is_err() {
                    return call;
                }
                proof {
                    assert(spec_primary(tokens@, start, *ind as int, *call->Ok_0));
                }
                let r = parse_ast_value_post_l(tokens, ind, call, false);
                return r;
            }
            let n: PositionedResult<Box<ASTTreeNode>> = Ok(
                Box::new(ASTTreeNode::VariableReference(WithHash::new(str.clone()))),
            );
            *ind = *ind + 1;
            proof {
                assert(spec_primary(tokens@, start, *ind as int, *n->Ok_0));
            }
            let r = parse_ast_value_post_l(tokens, ind, n, false);
            r
        },
        _ => Err(error_at(tokens, *ind, AST_VALUE_TOKEN)),
    }
}

/// A declaration of the top level: a function, a struct or a layout.
pub fn parse_ast_node(tokens: &Vec<LexerToken>, ind: &mut usize) -> (r: PositionedResult<
    Box<ASTTreeNode>,
>)
    ensures
        spec_moved(*old(ind), *final(ind), tokens@.len()),
        r matches Ok(node) ==> *old(ind) < *final(ind) < tokens@.len() && spec_closes(tokens@, *final(ind) as int) && spec_declaration(tokens@, *old(ind) as int, spec_next(tokens@, *final(ind) as int), *node),
        match spec_kind_at(tokens@, *old(ind) as int) {
            Some(LexerTokenType::Function) => r matches Ok(node) ==> *node
                is FunctionDeclaration,
            Some(LexerTokenType::Struct) => r matches Ok(node) ==> match *node {
                ASTTreeNode::StructLayoutDeclaration { name: _, layout, members: _ } => !layout,
                _ => false,
            },
            Some(LexerTokenType::Layout) => r matches Ok(node) ==> match *node {
                ASTTreeNode::StructLayoutDeclaration { name: _, layout, members: _ } => layout,
                _ => false,
            },
            _ => r is Err && spec_error_at(
                r->Err_0,
                tokens@,
                *old(ind) as int,
                AST_CONTEXT_TOKEN,
            ) && *final(ind) == *old(ind),
        },
        r matches Ok(node) ==> node.spec_is_tree_permissible(),
        spec_lands(r, *final(ind), spec_declaration_end(tokens@, *old(ind) as int)),
    decreases tokens@.len() - *old(ind), 9nat,
{
    let kind = match token_at(tokens, *ind) {
        Some(t) => &t.tok_type,
        None => {
            return Err(error_at(tokens, *ind, AST_CONTEXT_TOKEN));
        },
    };
    match kind {
        LexerTokenType::Function => parse_function_declaraction(tokens, ind),
        LexerTokenType::Struct => parse_type_declaration(tokens, ind, false),
        LexerTokenType::Layout => parse_type_declaration(tokens, ind, true),
        _ => Err(error_at(tokens, *ind, AST_CONTEXT_TOKEN)),
    }
}

/// A member of a body: a variable declaration, an `if`, a `while`, a `for`, or
/// a statement that starts with a name, which is a call or a variable with
/// what follows it.
pub fn parse_ast_node_in_body(tokens: &Vec<LexerToken>, ind: &mut usize) -> (r: PositionedResult<
    Box<ASTTreeNode>,
>)
    ensures
        spec_moved(*old(ind), *final(ind), tokens@.len()),
        r matches Ok(node) ==> *old(ind) < *final(ind) && spec_span_end(
            tokens@,
            *node,
            *final(ind) as int,
        ) <= tokens@.len() && spec_member(
            tokens@,
            *old(ind) as int,
            spec_span_end(tokens@, *node, *final(ind) as int),
            *node,
        ),
        match spec_kind_at(tokens@, *old(ind) as int) {
            Some(LexerTokenType::Var) => r matches Ok(node) ==> *node is VarDeclaration,
            Some(LexerTokenType::If) => r matches Ok(node) ==> *node is IfStatement,
            Some(LexerTokenType::While) => r matches Ok(node) ==> *node is WhileBlock,
            Some(LexerTokenType::For) => r matches Ok(node) ==> *node is ForBlock,
            Some(LexerTokenType::KEYWORD(_, _)) => r matches Ok(node) ==> spec_name_statement(
                tokens@,
                *old(ind) as int,
                *final(ind) as int,
                *node,
            ),
            _ => r is Err && spec_error_at(
                r->Err_0,
                tokens@,
                *old(ind) as int,
                AST_CONTEXT_TOKEN,
            ) && *final(ind) == *old(ind),
        },
        spec_word_at(tokens@, *old(ind) as int) && spec_plain_value(tokens@, *old(ind) as int)
            ==> r is Ok && *r->Ok_0 is VariableReference && *final(ind) == *old(ind) + 1,
        spec_word_at(tokens@, *old(ind) as int) ==> spec_comes_to(
            r,
            *final(ind),
            spec_statement_end(tokens@, *old(ind) as int),
        ),
        spec_lands(r, *final(ind), spec_member_end(tokens@, *old(ind) as int)),
        r matches Ok(node) ==> node.spec_ends_in_body() == spec_block_at(
            tokens@,
            *old(ind) as int,
        ),
    decreases tokens@.len() - *old(ind), 8nat,
{
    let kind = match token_at(tokens, *ind) {
        Some(t) => &t.tok_type,
        None => {
            return Err(error_at(tokens, *ind, AST_CONTEXT_TOKEN));
        },
    };
    match kind {
        LexerTokenType::Var => parse_variable_declaration(tokens, ind),
        LexerTokenType::If => parse_if_statement(tokens, ind),
        LexerTokenType::While => parse_while_block(tokens, ind),
        LexerTokenType::For => parse_for_loop(tokens, ind),
        LexerTokenType::KEYWORD(str, _) => {
            let ghost start = *ind as int;
            if is_at(tokens, *ind + 1, &LexerTokenType::ParenOpen) {
                let call = parse_function_call(tokens, ind);
                if call.is_err() {
                    return call;
                }
                proof {
                    assert(spec_primary(tokens@, start, *ind as int, *call->Ok_0));
                }
                let r = parse_ast_value_post_l(tokens, ind, call, true);
                return r;
            }
            let n: PositionedResult<Box<ASTTreeNode>> = Ok(
                Box::new(ASTTreeNode::VariableReference(WithHash::new(str.clone()))),
            );
            *ind = *ind + 1;
            proof {
                assert(spec_primary(tokens@, start, *ind as int, *n->Ok_0));
            }
            let r = parse_ast_value_post_l(tokens, ind, n, true);
            r
        },
        _ => Err(error_at(tokens, *ind, AST_CONTEXT_TOKEN)),
    }
}

} // verus!

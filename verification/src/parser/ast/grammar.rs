//! What it means for a node to be the parse of a run of tokens.
//!
//! Each relation says of a node, of the tokens and of two indices that the
//! tokens from the first index up to the second, and no more, spell the node.
//! The rules of the parser are stated over these relations: what a rule
//! yields is a parse of what it took.

use vstd::prelude::*;
use crate::commons::err::PositionedResult;
use crate::lexer::token::{LexerToken, LexerTokenType};
use crate::parser::ast::tree::{ASTTreeNode, FunctionDeclarationArgument};
use crate::utils::hash::WithHash;

verus! {

/// The kind of the token at `i`, if there is a token there.
pub open spec fn spec_kind_at(tokens: Seq<LexerToken>, i: int) -> Option<LexerTokenType> {
    if 0 <= i < tokens.len() {
        Some(tokens[i].tok_type)
    } else {
        None
    }
}

/// Whether the token at `i` is there and of kind `kind`.
pub open spec fn spec_is_at(tokens: Seq<LexerToken>, i: int, kind: LexerTokenType) -> bool {
    0 <= i < tokens.len() && tokens[i].tok_type.same(kind)
}

/// Whether the token at `i` is a word with the text of `name`, and `name`
/// carries the hash of its text.
pub open spec fn spec_names(tokens: Seq<LexerToken>, i: int, name: WithHash) -> bool {
    spec_kind_at(tokens, i) matches Some(LexerTokenType::KEYWORD(s, _)) && name.val@ == s@
        && name.in_step()
}

/// Whether the token at `i` is a word whose hash is `hash`.
pub open spec fn spec_names_type(tokens: Seq<LexerToken>, i: int, hash: u64) -> bool {
    spec_kind_at(tokens, i) matches Some(LexerTokenType::KEYWORD(_, h)) && h == hash
}

/// Whether the token at `i` continues the value before it: a dot, an
/// arithmetic operator or a comparing operator.
pub open spec fn spec_continues(tokens: Seq<LexerToken>, i: int) -> bool {
    match spec_kind_at(tokens, i) {
        Some(LexerTokenType::Dot) => true,
        Some(LexerTokenType::MathOperator(_, _)) => true,
        Some(LexerTokenType::ComparingOperator(_)) => true,
        _ => false,
    }
}

/// What the rules that continue a value ask of it: whether it is a call, a
/// variable access, or something else.
pub enum Shape {
    Call,
    Access,
    Other,
}

/// The shape of a node.
pub open spec fn spec_shape(node: ASTTreeNode) -> Shape {
    if node.spec_is_function_call() {
        Shape::Call
    } else if node.spec_is_var_access() {
        Shape::Access
    } else {
        Shape::Other
    }
}

/// Whether the tokens from `i` on spell a value, and if so, where it ends and
/// what shape it has.
///
/// `!` negates the value after it, which must be a call or a variable access.
/// A literal, a variable and a call may be continued; a word is a call if `(`
/// follows it.
pub open spec fn spec_value_end(tokens: Seq<LexerToken>, i: int) -> Option<(int, Shape)>
    decreases tokens.len() - i, 0nat,
{
    match spec_kind_at(tokens, i) {
        Some(LexerTokenType::ExclamationMark) => match spec_value_end(tokens, i + 1) {
            Some((j, shape)) => if shape is Other {
                None
            } else {
                Some((j, Shape::Other))
            },
            None => None,
        },
        Some(LexerTokenType::IntLit(_)) => spec_after(tokens, i + 1, Shape::Other, false),
        Some(LexerTokenType::StringLit(_)) => spec_after(tokens, i + 1, Shape::Other, false),
        Some(LexerTokenType::KEYWORD(_, _)) => if spec_is_at(
            tokens,
            i + 1,
            LexerTokenType::ParenOpen,
        ) {
            match spec_arguments_end(tokens, i + 2) {
                Some(k) => if i < k <= tokens.len() {
                    spec_after(tokens, k, Shape::Call, false)
                } else {
                    None
                },
                None => None,
            }
        } else {
            spec_after(tokens, i + 1, Shape::Access, false)
        },
        _ => None,
    }
}

/// What follows a value of shape `shape` that ends before `i`, and where the
/// whole ends. A dot continues a call or a variable access with a call or a
/// variable access; an arithmetic or comparing operator continues any value
/// with a value. Where the value stands as a statement, arithmetic must
/// assign. Any other token ends the value.
pub open spec fn spec_after(tokens: Seq<LexerToken>, i: int, shape: Shape, on_body: bool) -> Option<
    (int, Shape),
>
    decreases tokens.len() - i, 0nat,
{
    match spec_kind_at(tokens, i) {
        Some(LexerTokenType::Dot) => if shape is Other {
            None
        } else {
            match spec_value_end(tokens, i + 1) {
                Some((j, right)) => if right is Other {
                    None
                } else {
                    Some((j, right))
                },
                None => None,
            }
        },
        Some(LexerTokenType::MathOperator(_, assigns)) => if on_body && !assigns {
            None
        } else {
            match spec_value_end(tokens, i + 1) {
                Some((j, _)) => Some((j, Shape::Other)),
                None => None,
            }
        },
        Some(LexerTokenType::ComparingOperator(_)) => match spec_value_end(tokens, i + 1) {
            Some((j, _)) => Some((j, Shape::Other)),
            None => None,
        },
        _ => Some((i, shape)),
    }
}

/// Whether the tokens from `i` on, after the `(` of a call, spell its
/// arguments, and if so, the index after the `)`. Commas stand between the
/// arguments; one may stand after the last.
pub open spec fn spec_arguments_end(tokens: Seq<LexerToken>, i: int) -> Option<int>
    decreases tokens.len() - i, 1nat,
{
    if spec_is_at(tokens, i, LexerTokenType::ParenClose) {
        Some(i + 1)
    } else {
        match spec_value_end(tokens, i) {
            Some((k, _)) => if spec_is_at(tokens, k, LexerTokenType::Comma) {
                if k >= i {
                    spec_arguments_end(tokens, k + 1)
                } else {
                    None
                }
            } else if spec_is_at(tokens, k, LexerTokenType::ParenClose) {
                Some(k + 1)
            } else {
                None
            },
            None => None,
        }
    }
}

/// Whether the tokens from the word at `i` on spell a statement that starts
/// with a name, and if so, where it ends and what shape it has: a call or a
/// variable with what follows it, where arithmetic must assign.
pub open spec fn spec_statement_end(tokens: Seq<LexerToken>, i: int) -> Option<(int, Shape)> {
    if spec_is_at(tokens, i + 1, LexerTokenType::ParenOpen) {
        match spec_arguments_end(tokens, i + 2) {
            Some(k) => spec_after(tokens, k, Shape::Call, true),
            None => None,
        }
    } else {
        spec_after(tokens, i + 1, Shape::Access, true)
    }
}

/// Whether a rule came to what the tokens ask for: it succeeded with the
/// index and the shape that they give, or it failed where they give none.
pub open spec fn spec_comes_to(
    r: PositionedResult<Box<ASTTreeNode>>,
    after: usize,
    asked: Option<(int, Shape)>,
) -> bool {
    match asked {
        Some((j, shape)) => r is Ok && after == j && spec_shape(*r->Ok_0) == shape,
        None => r is Err,
    }
}

/// Whether the token at `i` is a word.
pub open spec fn spec_word_at(tokens: Seq<LexerToken>, i: int) -> bool {
    spec_kind_at(tokens, i) matches Some(LexerTokenType::KEYWORD(_, _))
}

/// Whether the token at `i` may start a value: `!`, a literal or a word.
pub open spec fn spec_starts_value(tokens: Seq<LexerToken>, i: int) -> bool {
    match spec_kind_at(tokens, i) {
        Some(LexerTokenType::ExclamationMark) => true,
        Some(LexerTokenType::IntLit(_)) => true,
        Some(LexerTokenType::StringLit(_)) => true,
        Some(LexerTokenType::KEYWORD(_, _)) => true,
        _ => false,
    }
}

/// Whether the token at `i` is a value all by itself: a literal, or a word that
/// is no call, and the token after it does not continue it.
pub open spec fn spec_plain_value(tokens: Seq<LexerToken>, i: int) -> bool {
    &&& match spec_kind_at(tokens, i) {
        Some(LexerTokenType::IntLit(_)) => true,
        Some(LexerTokenType::StringLit(_)) => true,
        Some(LexerTokenType::KEYWORD(_, _)) => !spec_is_at(
            tokens,
            i + 1,
            LexerTokenType::ParenOpen,
        ),
        _ => false,
    }
    &&& !spec_continues(tokens, i + 1)
}

/// Whether a body without members stands at `i`: `{` and `}`.
pub open spec fn spec_empty_body(tokens: Seq<LexerToken>, i: int) -> bool {
    spec_is_at(tokens, i, LexerTokenType::BracketOpen) && spec_is_at(
        tokens,
        i + 1,
        LexerTokenType::BracketClose,
    )
}

/// A value that nothing is applied to: a literal, a variable, or a call.
pub open spec fn spec_primary(tokens: Seq<LexerToken>, i: int, j: int, node: ASTTreeNode) -> bool
    decreases node, 1nat,
{
    match node {
        ASTTreeNode::IntegerLit(v) => spec_kind_at(tokens, i) == Some(LexerTokenType::IntLit(v))
            && j == i + 1,
        ASTTreeNode::StringLit(s) => (spec_kind_at(tokens, i) matches Some(
            LexerTokenType::StringLit(t),
        ) && t@ == s@) && j == i + 1,
        ASTTreeNode::VariableReference(w) => spec_names(tokens, i, w) && !spec_is_at(
            tokens,
            i + 1,
            LexerTokenType::ParenOpen,
        ) && j == i + 1,
        ASTTreeNode::FunctionCall { func, args } => spec_names(tokens, i, func) && spec_is_at(
            tokens,
            i + 1,
            LexerTokenType::ParenOpen,
        ) && spec_arguments(tokens, i + 2, j, args@),
        _ => false,
    }
}

/// The arguments of a call, from the token after `(` on, up to and with `)`.
/// Commas stand between the arguments; one may stand after the last.
pub open spec fn spec_arguments(
    tokens: Seq<LexerToken>,
    i: int,
    j: int,
    args: Seq<Box<ASTTreeNode>>,
) -> bool
    decreases args, 0nat,
{
    if args.len() == 0 {
        spec_is_at(tokens, i, LexerTokenType::ParenClose) && j == i + 1
    } else {
        !spec_is_at(tokens, i, LexerTokenType::ParenClose) && exists|k: int|
            #![trigger spec_is_at(tokens, k, LexerTokenType::Comma)]
            i < k && spec_value(tokens, i, k, *args[0]) && (if spec_is_at(
                tokens,
                k,
                LexerTokenType::Comma,
            ) {
                spec_arguments(tokens, k + 1, j, args.subrange(1, args.len() as int))
            } else {
                spec_is_at(tokens, k, LexerTokenType::ParenClose) && args.len() == 1 && j == k
                    + 1
            })
    }
}

/// A value: a primary that nothing follows, the negation of a variable or a
/// call, or a primary with what is applied to it, a field or member function,
/// an arithmetic operator or a comparing operator with its right side.
pub open spec fn spec_value(tokens: Seq<LexerToken>, i: int, j: int, node: ASTTreeNode) -> bool
    decreases node, 2nat,
{
    match node {
        ASTTreeNode::BooleanBasedConditionMember { val, negate } => negate && spec_is_at(
            tokens,
            i,
            LexerTokenType::ExclamationMark,
        ) && spec_value(tokens, i + 1, j, *val) && (val.spec_is_function_call()
            || val.spec_is_var_access()),
        ASTTreeNode::MathResult { lval, rval, operator, assigns } => exists|k: int|
            #![trigger spec_kind_at(tokens, k)]
            spec_primary(tokens, i, k, *lval) && spec_kind_at(tokens, k) == Some(
                LexerTokenType::MathOperator(operator, assigns),
            ) && spec_value(tokens, k + 1, j, *rval),
        ASTTreeNode::OperatorBasedConditionMember { lval, rval, operator } => exists|k: int|
            #![trigger spec_kind_at(tokens, k)]
            spec_primary(tokens, i, k, *lval) && spec_kind_at(tokens, k) == Some(
                LexerTokenType::ComparingOperator(operator),
            ) && spec_value(tokens, k + 1, j, *rval),
        ASTTreeNode::StructLRFunction { l, r } => exists|k: int|
            #![trigger spec_is_at(tokens, k, LexerTokenType::Dot)]
            spec_primary(tokens, i, k, *l) && (l.spec_is_function_call() || l.spec_is_var_access())
                && spec_is_at(tokens, k, LexerTokenType::Dot) && spec_value(
                tokens,
                k + 1,
                j,
                *r,
            ) && r.spec_is_function_call(),
        ASTTreeNode::StructLRVariable { l, r } => exists|k: int|
            #![trigger spec_is_at(tokens, k, LexerTokenType::Dot)]
            spec_primary(tokens, i, k, *l) && (l.spec_is_function_call() || l.spec_is_var_access())
                && spec_is_at(tokens, k, LexerTokenType::Dot) && spec_value(
                tokens,
                k + 1,
                j,
                *r,
            ) && r.spec_is_var_access(),
        _ => spec_primary(tokens, i, j, node) && !spec_continues(tokens, j),
    }
}

/// A statement that starts with a name: a value that starts with a variable
/// or a call, whose arithmetic, if it is arithmetic, assigns.
pub open spec fn spec_name_statement(
    tokens: Seq<LexerToken>,
    i: int,
    j: int,
    node: ASTTreeNode,
) -> bool {
    &&& spec_kind_at(tokens, i) matches Some(LexerTokenType::KEYWORD(_, _))
    &&& spec_value(tokens, i, j, node)
    &&& node matches ASTTreeNode::MathResult { lval: _, rval: _, operator: _, assigns } ==> assigns
}


/// Whether `k` lies at a token or right after the last one: a place where a
/// rule may end and the next one start.
pub open spec fn spec_boundary(tokens: Seq<LexerToken>, k: int) -> bool {
    0 <= k <= tokens.len()
}

/// Whether the token at `i` closes a body: `}`, or the token that marks the
/// end of the file, which closes every body that is still open.
pub open spec fn spec_closes(tokens: Seq<LexerToken>, i: int) -> bool {
    spec_is_at(tokens, i, LexerTokenType::BracketClose) || spec_is_at(
        tokens,
        i,
        LexerTokenType::EndOfFile,
    )
}

/// The index after the token at `c` that closes a body: after a `}`; the end
/// of the file is not passed.
pub open spec fn spec_next(tokens: Seq<LexerToken>, c: int) -> int {
    if spec_is_at(tokens, c, LexerTokenType::BracketClose) {
        c + 1
    } else {
        c
    }
}

/// Where the tokens of a node end whose rule left the index at `cursor`. A
/// rule whose node ends in a body leaves the index on the token that closes
/// the body; every other rule leaves it after the last token.
pub open spec fn spec_span_end(tokens: Seq<LexerToken>, node: ASTTreeNode, cursor: int) -> int {
    if node.spec_ends_in_body() {
        spec_next(tokens, cursor)
    } else {
        cursor
    }
}

/// A variable declaration. Its first token, at `i`, is passed over: it is the
/// reserved word of a declaration in a body and the `(` of a `for`.
pub open spec fn spec_var_decl(tokens: Seq<LexerToken>, i: int, j: int, node: ASTTreeNode) -> bool {
    match node {
        ASTTreeNode::VarDeclaration { var_name, var_type, value } => spec_names_type(
            tokens,
            i + 1,
            var_type,
        ) && spec_names(tokens, i + 2, var_name) && match value {
            Some(v) => spec_is_at(tokens, i + 3, LexerTokenType::EqualSign) && spec_value(
                tokens,
                i + 4,
                j,
                *v,
            ),
            None => !spec_is_at(tokens, i + 3, LexerTokenType::EqualSign) && j == i + 3,
        },
        _ => false,
    }
}

/// A condition in parentheses.
pub open spec fn spec_condition(tokens: Seq<LexerToken>, i: int, j: int, cond: ASTTreeNode) -> bool {
    spec_is_at(tokens, i, LexerTokenType::ParenOpen) && spec_value(tokens, i + 1, j - 1, cond)
        && spec_is_at(tokens, j - 1, LexerTokenType::ParenClose)
}

/// The members of a body, from the token after `{` on, up to and with `}`, or
/// up to the end of the file.
pub open spec fn spec_members(
    tokens: Seq<LexerToken>,
    i: int,
    j: int,
    body: Seq<Box<ASTTreeNode>>,
) -> bool
    decreases body, 0nat,
{
    if body.len() == 0 {
        spec_closes(tokens, i) && j == spec_next(tokens, i)
    } else {
        !spec_is_at(tokens, i, LexerTokenType::BracketClose) && !spec_is_at(
            tokens,
            i,
            LexerTokenType::EndOfFile,
        ) && exists|k: int| #[trigger]
            spec_boundary(tokens, k) && i < k && spec_member(tokens, i, k, *body[0])
                && spec_members(tokens, k, j, body.subrange(1, body.len() as int))
    }
}

/// A body: `{`, its members, `}`.
pub open spec fn spec_body(
    tokens: Seq<LexerToken>,
    i: int,
    j: int,
    body: Seq<Box<ASTTreeNode>>,
) -> bool
    decreases body, 1nat,
{
    spec_is_at(tokens, i, LexerTokenType::BracketOpen) && spec_members(tokens, i + 1, j, body)
}

/// A condition in parentheses and the body that it guards.
pub open spec fn spec_guarded(
    tokens: Seq<LexerToken>,
    i: int,
    j: int,
    cond: ASTTreeNode,
    body: Seq<Box<ASTTreeNode>>,
) -> bool
    decreases body, 2nat,
{
    exists|k: int| #[trigger]
        spec_boundary(tokens, k) && spec_condition(tokens, i, k, cond) && spec_body(
            tokens,
            k,
            j,
            body,
        )
}

/// What follows the body of an `if` or `else if`: an `else`, or nothing.
pub open spec fn spec_tail(
    tokens: Seq<LexerToken>,
    i: int,
    j: int,
    else_statement: Option<Box<ASTTreeNode>>,
) -> bool
    decreases else_statement, 1nat,
{
    match else_statement {
        Some(e) => spec_is_at(tokens, i, LexerTokenType::Else) && spec_else(tokens, i, j, *e),
        None => !spec_is_at(tokens, i, LexerTokenType::Else) && j == i,
    }
}

/// An `else`, which stands at `i`: `else if` with its condition, its body and
/// what follows, or `else` with its body.
pub open spec fn spec_else(tokens: Seq<LexerToken>, i: int, j: int, node: ASTTreeNode) -> bool
    decreases node, 0nat,
{
    match node {
        ASTTreeNode::IfElseStatement { cond: Some(c), body, else_statement } => spec_is_at(
            tokens,
            i + 1,
            LexerTokenType::If,
        ) && exists|k: int| #[trigger]
            spec_boundary(tokens, k) && spec_guarded(tokens, i + 2, k, *c, body@) && spec_tail(
                tokens,
                k,
                j,
                else_statement,
            ),
        ASTTreeNode::ElseStatement { body } => !spec_is_at(tokens, i + 1, LexerTokenType::If)
            && spec_body(tokens, i + 1, j, body@),
        _ => false,
    }
}

/// A member of a body.
pub open spec fn spec_member(tokens: Seq<LexerToken>, i: int, j: int, node: ASTTreeNode) -> bool
    decreases node, 3nat,
{
    match node {
        ASTTreeNode::VarDeclaration { .. } => spec_is_at(tokens, i, LexerTokenType::Var)
            && spec_var_decl(tokens, i, j, node),
        ASTTreeNode::IfStatement { cond, body, else_statement, depth } => spec_is_at(
            tokens,
            i,
            LexerTokenType::If,
        ) && depth == 0 && exists|k: int| #[trigger]
            spec_boundary(tokens, k) && spec_guarded(tokens, i + 1, k, *cond, body@) && spec_tail(
                tokens,
                k,
                j,
                else_statement,
            ),
        ASTTreeNode::WhileBlock { cond, body } => spec_is_at(tokens, i, LexerTokenType::While)
            && spec_guarded(tokens, i + 1, j, *cond, body@),
        ASTTreeNode::ForBlock { initial_state, cond, increment, body } => spec_is_at(
            tokens,
            i,
            LexerTokenType::For,
        ) && spec_is_at(tokens, i + 1, LexerTokenType::ParenOpen) && exists|
            k1: int,
            k2: int,
            k3: int,
        |
            #![trigger spec_boundary(tokens, k1), spec_boundary(tokens, k2), spec_boundary(tokens, k3)]
            spec_boundary(tokens, k1) && spec_boundary(tokens, k2) && spec_boundary(tokens, k3)
                && spec_var_decl(tokens, i + 1, k1, *initial_state) && spec_is_at(
                tokens,
                k1,
                LexerTokenType::Comma,
            ) && spec_value(tokens, k1 + 1, k2, *cond) && spec_is_at(
                tokens,
                k2,
                LexerTokenType::Comma,
            ) && spec_member(tokens, k2 + 1, k3, *increment) && spec_is_at(
                tokens,
                k3,
                LexerTokenType::ParenClose,
            ) && spec_body(tokens, k3 + 1, j, body@),
        _ => spec_name_statement(tokens, i, j, node),
    }
}

/// The parameters of a declaration, from the token after `(` on; `k` is the
/// index of the `)`.
pub open spec fn spec_parameters(
    tokens: Seq<LexerToken>,
    i: int,
    k: int,
    args: Seq<FunctionDeclarationArgument>,
) -> bool
    decreases args.len(),
{
    if args.len() == 0 {
        !(spec_kind_at(tokens, i) matches Some(LexerTokenType::KEYWORD(_, _))) && spec_is_at(
            tokens,
            i,
            LexerTokenType::ParenClose,
        ) && k == i
    } else {
        spec_names_type(tokens, i, args[0].argument_type) && spec_names(tokens, i + 1, args[0].name)
            && (if spec_is_at(tokens, i + 2, LexerTokenType::Comma) {
            spec_parameters(tokens, i + 3, k, args.subrange(1, args.len() as int))
        } else {
            args.len() == 1 && spec_is_at(tokens, i + 2, LexerTokenType::ParenClose) && k == i + 2
        })
    }
}

/// The head of a function declaration, from its name on: the name, the
/// parameters in parentheses, and the name of the return type if one is given.
pub open spec fn spec_function_head(
    tokens: Seq<LexerToken>,
    i: int,
    j: int,
    name: WithHash,
    args: Seq<FunctionDeclarationArgument>,
    ret: Option<u64>,
) -> bool {
    spec_names(tokens, i, name) && spec_is_at(tokens, i + 1, LexerTokenType::ParenOpen) && exists|
        k: int,
    | #[trigger]
        spec_boundary(tokens, k) && spec_parameters(tokens, i + 2, k, args) && match ret {
            Some(h) => spec_names_type(tokens, k + 1, h) && j == k + 2,
            None => !(spec_kind_at(tokens, k + 1) matches Some(LexerTokenType::KEYWORD(_, _)))
                && j == k + 1,
        }
}

/// A field of a struct or layout: the name of its type and its own name.
pub open spec fn spec_field(tokens: Seq<LexerToken>, i: int, node: ASTTreeNode) -> bool {
    match node {
        ASTTreeNode::StructFieldMember { name, member_type } => spec_names_type(
            tokens,
            i,
            member_type,
        ) && spec_names(tokens, i + 1, name),
        _ => false,
    }
}

/// The fields of a struct or layout, from the token after `{` on, up to and
/// with `}`.
pub open spec fn spec_fields(
    tokens: Seq<LexerToken>,
    i: int,
    j: int,
    members: Seq<Box<ASTTreeNode>>,
) -> bool
    decreases members.len(),
{
    if members.len() == 0 {
        spec_is_at(tokens, i, LexerTokenType::BracketClose) && j == i + 1
    } else {
        !spec_is_at(tokens, i, LexerTokenType::BracketClose) && spec_field(tokens, i, *members[0])
            && spec_fields(tokens, i + 2, j, members.subrange(1, members.len() as int))
    }
}

/// A declaration, from its reserved word on, which stands at `i` and is
/// passed over: a function with or without a body, a struct or a layout, or a
/// static variable.
pub open spec fn spec_declared(tokens: Seq<LexerToken>, i: int, j: int, node: ASTTreeNode) -> bool {
    match node {
        ASTTreeNode::FunctionDeclaration { func_name, args, body, returnType } => exists|k: int| #[trigger]
            spec_boundary(tokens, k) && spec_function_head(
                tokens,
                i + 1,
                k,
                func_name,
                args@,
                returnType,
            ) && spec_body(tokens, k, j, body@),
        ASTTreeNode::ShadowFunctionDeclaration { func_name, args, returnType } => spec_function_head(
            tokens,
            i + 1,
            j,
            func_name,
            args@,
            returnType,
        ),
        ASTTreeNode::StructLayoutDeclaration { name, layout: _, members } => spec_names(
            tokens,
            i + 1,
            name,
        ) && spec_is_at(tokens, i + 2, LexerTokenType::BracketOpen) && spec_fields(
            tokens,
            i + 3,
            j,
            members@,
        ),
        ASTTreeNode::StaticVariableDeclaration { name, var_type, val } => spec_names_type(
            tokens,
            i + 1,
            var_type,
        ) && spec_names(tokens, i + 2, name) && spec_is_at(
            tokens,
            i + 3,
            LexerTokenType::EqualSign,
        ) && spec_value(tokens, i + 4, j, *val),
        _ => false,
    }
}

/// A declaration of the top level: `func` with a function, `struct` with a
/// struct, `layout` with a layout.
pub open spec fn spec_declaration(tokens: Seq<LexerToken>, i: int, j: int, node: ASTTreeNode) -> bool {
    spec_declared(tokens, i, j, node) && match node {
        ASTTreeNode::FunctionDeclaration { .. } => spec_is_at(tokens, i, LexerTokenType::Function),
        ASTTreeNode::StructLayoutDeclaration { name: _, layout, members: _ } => if layout {
            spec_is_at(tokens, i, LexerTokenType::Layout)
        } else {
            spec_is_at(tokens, i, LexerTokenType::Struct)
        },
        _ => false,
    }
}

} // verus!

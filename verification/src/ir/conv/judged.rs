//! What the library itself decides when it lowers the members of a body.
//!
//! A member is refused for what it is, for a type or a name that is not
//! there, or for a value that is refused. Which of these holds depends on
//! the registry, the functions and the static variables of the module and on
//! the types and depths of the variables that are bound, and on nothing that
//! the instruction builder does. This module says it as functions of those;
//! the rules are held to them.

use vstd::prelude::*;
use std::rc::Rc;
use crate::commons::err::PositionlessResult;
use crate::commons::utils::map::spec_get;
use crate::ir::conv::control::spec_chain_wf;
use crate::ir::conv::lowered::Env;
use crate::ir::ctx::IRLocalContext;
use crate::ir::utils::backend_failed;
use crate::ir::verdict::{Refusal, StaticVar, Verdict, Verdicts, spec_arguments_refusal, spec_callee_verdict, spec_obtain_refusal, spec_refused, spec_static_vars, spec_value_verdict, spec_values_verdict};
use crate::parser::ast::tree::ASTTreeNode;

verus! {

/// The variables of a body as the library's checks read them, and the depth
/// of nested bodies.
pub struct StaticScope {
    pub vars: Map<u64, StaticVar>,
    pub depth: int,
}

/// What the library's checks read of a local context.
pub open spec fn spec_static_scope(l: IRLocalContext) -> StaticScope {
    StaticScope { vars: spec_static_vars(l.vars@), depth: l.current_depth as int }
}

/// The scope of a body that is nested in `s`, at its start.
pub open spec fn spec_static_deeper(s: StaticScope) -> StaticScope {
    StaticScope { vars: s.vars, depth: s.depth + 1 }
}

/// Whether two scopes hold the same.
pub open spec fn spec_same_scope(a: StaticScope, b: StaticScope) -> bool {
    a.depth == b.depth && a.vars =~= b.vars
}

/// What the library comes to for a member of a body: the scope after it, or
/// a refusal.
pub enum Outcome {
    Passes(StaticScope),
    Refused(Refusal),
}

/// The refusal of an outcome, if it is one.
pub open spec fn spec_refusal_of(o: Outcome) -> Option<Refusal> {
    match o {
        Outcome::Passes(_) => None,
        Outcome::Refused(c) => Some(c),
    }
}

/// The refusal of a verdict on a value, if it is one.
pub open spec fn spec_value_refusal(v: Verdict) -> Option<Refusal> {
    match v {
        Verdict::Yields(_) => None,
        Verdict::Refused(c) => Some(c),
    }
}

/// A condition: its value must not be refused, it is materialized, and it
/// must be a boolean.
pub open spec fn spec_condition_refusal(env: Env, scope: StaticScope, cond: ASTTreeNode) -> Option<
    Refusal,
> {
    match spec_value_verdict(env, Some(scope.vars), cond, None, false) {
        Verdict::Refused(c) => Some(c),
        Verdict::Yields(shape) => if spec_obtain_refusal(shape) is Some {
            spec_obtain_refusal(shape)
        } else if !(*shape.t->Some_0 is Bool) {
            Some(Refusal::NotBoolean)
        } else {
            None
        },
    }
}

/// A call: its arguments must not be refused, the callee must be there (a
/// function of the module, or with a receiver a member function of its
/// type), and the arguments are materialized, after the receiver.
pub open spec fn spec_call_refusal(
    env: Env,
    vars: Map<u64, StaticVar>,
    hash: u64,
    args: Seq<Box<ASTTreeNode>>,
    owner: Option<Rc<crate::ir::types::typing::IRType>>,
) -> Option<Refusal> {
    match spec_values_verdict(env, Some(vars), args, false) {
        Verdicts::Refused(c) => Some(c),
        Verdicts::Yield(shapes) => match spec_callee_verdict(env, owner, hash) {
            Err(c) => Some(c),
            Ok(_) => spec_arguments_refusal(
                match owner {
                    Some(t) => seq![crate::ir::verdict::spec_location(t)] + shapes,
                    None => shapes,
                },
            ),
        },
    }
}

/// A return: its value, where there is one, must not be refused, and is
/// materialized.
pub open spec fn spec_return_refusal(
    env: Env,
    scope: StaticScope,
    val: Option<Box<ASTTreeNode>>,
) -> Option<Refusal> {
    match val {
        None => None,
        Some(v) => match spec_value_verdict(env, Some(scope.vars), *v, None, false) {
            Verdict::Refused(c) => Some(c),
            Verdict::Yields(shape) => spec_obtain_refusal(shape),
        },
    }
}

/// A variable declaration: the type must be registered, the initial value
/// must not be refused, and the name must not be bound anywhere in the
/// function. It binds the name to the type at the current depth.
pub open spec fn spec_declaration_outcome(
    env: Env,
    scope: StaticScope,
    hash: u64,
    var_type: u64,
    value: Option<Box<ASTTreeNode>>,
) -> Outcome {
    match spec_get(env.types, var_type) {
        None => Outcome::Refused(Refusal::UnknownType),
        Some(t) => {
            let refused = match value {
                Some(v) => spec_value_refusal(
                    spec_value_verdict(env, Some(scope.vars), *v, None, true),
                ),
                None => None,
            };
            if refused is Some {
                Outcome::Refused(refused->Some_0)
            } else if scope.vars.contains_key(hash) {
                Outcome::Refused(Refusal::Bound)
            } else {
                Outcome::Passes(
                    StaticScope {
                        vars: scope.vars.insert(hash, StaticVar { t, depth: scope.depth }),
                        depth: scope.depth,
                    },
                )
            }
        },
    }
}

/// The members of a body, lowered in order: the scope after the last, or the
/// refusal of the first that is refused.
pub open spec fn spec_members_outcome(
    env: Env,
    scope: StaticScope,
    body: Seq<Box<ASTTreeNode>>,
) -> Outcome
    decreases body, 0nat,
{
    if body.len() == 0 {
        Outcome::Passes(scope)
    } else {
        match spec_member_outcome(env, scope, *body[0]) {
            Outcome::Refused(c) => Outcome::Refused(c),
            Outcome::Passes(mid) => spec_members_outcome(
                env,
                mid,
                body.subrange(1, body.len() as int),
            ),
        }
    }
}

/// A nested body: bodies must not be nested beyond what the depth counts,
/// and no member may be refused.
pub open spec fn spec_nested_refusal(
    env: Env,
    scope: StaticScope,
    body: Seq<Box<ASTTreeNode>>,
) -> Option<Refusal>
    decreases body, 1nat,
{
    if scope.depth >= i64::MAX {
        Some(Refusal::TooDeep)
    } else {
        spec_refusal_of(spec_members_outcome(env, spec_static_deeper(scope), body))
    }
}

/// What follows the body of a condition in a cascade.
pub open spec fn spec_rest_refusal(
    env: Env,
    scope: StaticScope,
    else_statement: Option<Box<ASTTreeNode>>,
) -> Option<Refusal>
    decreases else_statement, 1nat,
{
    match else_statement {
        None => None,
        Some(n) => match *n {
            ASTTreeNode::IfElseStatement { cond: Some(_), .. } => spec_chain_refusal(
                env,
                scope,
                *n,
            ),
            ASTTreeNode::IfElseStatement { cond: None, body, .. } => spec_nested_refusal(
                env,
                scope,
                body@,
            ),
            ASTTreeNode::ElseStatement { body } => spec_nested_refusal(env, scope, body@),
            _ => Some(Refusal::Malformed),
        },
    }
}

/// The cascade from a condition on: the condition, its body, and what
/// follows, each in the scope in which the `if` stands.
pub open spec fn spec_chain_refusal(env: Env, scope: StaticScope, node: ASTTreeNode) -> Option<
    Refusal,
>
    decreases node, 0nat,
{
    match node {
        ASTTreeNode::IfStatement { cond, body, else_statement, depth: _ } => if spec_condition_refusal(
            env,
            scope,
            *cond,
        ) is Some {
            spec_condition_refusal(env, scope, *cond)
        } else if spec_nested_refusal(env, scope, body@) is Some {
            spec_nested_refusal(env, scope, body@)
        } else {
            spec_rest_refusal(env, scope, else_statement)
        },
        ASTTreeNode::IfElseStatement { cond: Some(cond), body, else_statement } => if spec_condition_refusal(
            env,
            scope,
            *cond,
        ) is Some {
            spec_condition_refusal(env, scope, *cond)
        } else if spec_nested_refusal(env, scope, body@) is Some {
            spec_nested_refusal(env, scope, body@)
        } else {
            spec_rest_refusal(env, scope, else_statement)
        },
        _ => Some(Refusal::Malformed),
    }
}

/// An `if` with its branches: the branches must be a chain whose conditions
/// can be counted, and nothing of the cascade may be refused.
pub open spec fn spec_if_refusal(env: Env, scope: StaticScope, node: ASTTreeNode) -> Option<
    Refusal,
>
    decreases node, 1nat,
{
    if !spec_chain_wf(node) || crate::ir::conv::control::spec_chain_conditions(node)
        >= usize::MAX {
        Some(Refusal::Malformed)
    } else {
        spec_chain_refusal(env, scope, node)
    }
}

/// A `for`: the initializer, the condition in the scope after it, the body
/// one depth further in, and the increment at the end of the body.
pub open spec fn spec_for_outcome(env: Env, scope: StaticScope, node: ASTTreeNode) -> Outcome
    decreases node, 1nat,
{
    match node {
        ASTTreeNode::ForBlock { initial_state, cond, increment, body } => match spec_member_outcome(
            env,
            scope,
            *initial_state,
        ) {
            Outcome::Refused(c) => Outcome::Refused(c),
            Outcome::Passes(first) => if spec_condition_refusal(env, first, *cond) is Some {
                Outcome::Refused(spec_condition_refusal(env, first, *cond)->Some_0)
            } else if first.depth >= i64::MAX {
                Outcome::Refused(Refusal::TooDeep)
            } else {
                match spec_members_outcome(env, spec_static_deeper(first), body@) {
                    Outcome::Refused(c) => Outcome::Refused(c),
                    Outcome::Passes(inner) => match spec_member_outcome(env, inner, *increment) {
                        Outcome::Refused(c) => Outcome::Refused(c),
                        Outcome::Passes(_) => Outcome::Passes(first),
                    },
                }
            },
        },
        _ => Outcome::Refused(Refusal::NoMember),
    }
}

/// What the library comes to for a member of a body.
pub open spec fn spec_member_outcome(env: Env, scope: StaticScope, node: ASTTreeNode) -> Outcome
    decreases node, 3nat,
{
    match node {
        ASTTreeNode::VarDeclaration { var_name, var_type, value } => spec_declaration_outcome(
            env,
            scope,
            var_name.hash,
            var_type,
            value,
        ),
        ASTTreeNode::MathResult { lval: _, rval: _, operator: _, assigns } => if !assigns {
            Outcome::Refused(Refusal::NoAssign)
        } else {
            match spec_value_verdict(env, Some(scope.vars), node, None, false) {
                Verdict::Refused(c) => Outcome::Refused(c),
                Verdict::Yields(_) => Outcome::Passes(scope),
            }
        },
        ASTTreeNode::StructLRFunction { .. } => match spec_value_verdict(
            env,
            Some(scope.vars),
            node,
            None,
            false,
        ) {
            Verdict::Refused(c) => Outcome::Refused(c),
            Verdict::Yields(_) => Outcome::Passes(scope),
        },
        ASTTreeNode::StructLRVariable { .. } => match spec_value_verdict(
            env,
            Some(scope.vars),
            node,
            None,
            false,
        ) {
            Verdict::Refused(c) => Outcome::Refused(c),
            Verdict::Yields(_) => Outcome::Passes(scope),
        },
        ASTTreeNode::FunctionCall { func, args } => match spec_call_refusal(
            env,
            scope.vars,
            func.hash,
            args@,
            None,
        ) {
            Some(c) => Outcome::Refused(c),
            None => Outcome::Passes(scope),
        },
        ASTTreeNode::ReturnStatement { val } => match spec_return_refusal(env, scope, val) {
            Some(c) => Outcome::Refused(c),
            None => Outcome::Passes(scope),
        },
        ASTTreeNode::IfStatement { .. } => match spec_if_refusal(env, scope, node) {
            Some(c) => Outcome::Refused(c),
            None => Outcome::Passes(scope),
        },
        ASTTreeNode::ForBlock { .. } => spec_for_outcome(env, scope, node),
        _ => Outcome::Refused(Refusal::NoMember),
    }
}

/// Whether a result agrees with an outcome. With a scope for an outcome,
/// success leaves that scope, and an error is a failure of the instruction
/// builder. With a refusal, the result is an error: a failure of the
/// instruction builder, or the error of the refusal.
pub open spec fn spec_passed<K>(
    r: PositionlessResult<K>,
    after: StaticScope,
    outcome: Outcome,
) -> bool {
    match outcome {
        Outcome::Passes(scope) => match r {
            Ok(_) => spec_same_scope(after, scope),
            Err(_) => backend_failed(r),
        },
        Outcome::Refused(c) => r is Err && (backend_failed(r) || spec_refused(r, c)),
    }
}

/// The scope in which the body of a function starts: nothing is bound, at
/// depth zero.
pub open spec fn spec_fresh_scope() -> StaticScope {
    StaticScope { vars: Map::empty(), depth: 0 }
}

/// A function declaration: its types must be registered, no member of its
/// body may be refused, and its name must be free. A declaration without a
/// body has no members.
pub open spec fn spec_function_refusal(
    env: Env,
    taken: bool,
    resolves: bool,
    body: Seq<Box<ASTTreeNode>>,
) -> Option<Refusal> {
    if !resolves {
        Some(Refusal::UnknownType)
    } else if spec_members_outcome(env, spec_fresh_scope(), body) is Refused {
        spec_refusal_of(spec_members_outcome(env, spec_fresh_scope(), body))
    } else if taken {
        Some(Refusal::Taken)
    } else {
        None
    }
}

/// The declaration of a static variable: its value must not be refused, its
/// type must be registered, text must be declared under the type of static
/// strings, another value is materialized, and the name must be free.
pub open spec fn spec_static_refusal(
    env: Env,
    taken: bool,
    var_type: u64,
    val: ASTTreeNode,
) -> Option<Refusal> {
    match spec_value_verdict(env, None, val, None, true) {
        Verdict::Refused(c) => Some(c),
        Verdict::Yields(shape) => if !env.types.contains_key(var_type) {
            Some(Refusal::UnknownType)
        } else if shape.held is Text {
            if !env.types.contains_key(crate::ir::types::STATICSTR_TYPE_HASH) {
                Some(Refusal::MissingPrimitive)
            } else if !crate::ir::types::typing::spec_same_type(
                *env.types[var_type],
                *env.types[crate::ir::types::STATICSTR_TYPE_HASH],
            ) {
                Some(Refusal::NotStaticString)
            } else if taken {
                Some(Refusal::Taken)
            } else {
                None
            }
        } else if spec_obtain_refusal(shape) is Some {
            spec_obtain_refusal(shape)
        } else if taken {
            Some(Refusal::Taken)
        } else {
            None
        },
    }
}

} // verus!

//! What lowering the members of a body builds and binds, by the kind of their
//! node.
//!
//! The relations of this module say of a node, of the state of the backend's
//! record and of the local scope before it is lowered and of both after, that
//! the later record is the earlier one with exactly what the rule for the
//! node builds, and that the later scope is the earlier one with exactly what
//! the rule binds.

use vstd::prelude::*;
use std::rc::Rc;
use crate::commons::utils::map::spec_get;
use crate::ir::backend::{BlockHandle, FunctionHandle, Instr, Issued, ValueHandle};
use crate::ir::conv::cascade::CascadePlan;
use crate::ir::conv::control::{spec_chain_conditions, spec_chain_has_else, spec_chain_wf};
use crate::ir::conv::lowered::{Env, spec_callee, spec_lowers, spec_lowers_each, spec_points};
use crate::ir::ctx::{IRLocalContext, LocalIRVariable, spec_extends, spec_pruned};
use crate::ir::irstruct::ptr::IRPointer;
use crate::ir::refs::{IRValueRef, IRValueRefKind};
use crate::ir::rules::{Recorded, spec_calls, spec_coerces, spec_obtains, spec_reached, spec_step, spec_takes_slot};
use crate::ir::types::typing::IRType;
use crate::ir::values::{IRNewValue, spec_is_integral};
use crate::parser::ast::tree::ASTTreeNode;

verus! {

/// The local scope as lowering sees it: the variables that are bound, and the
/// depth of nested bodies.
pub struct Scope {
    pub vars: Map<u64, LocalIRVariable>,
    pub depth: int,
}

/// The scope of a local context.
pub open spec fn spec_scope(l: IRLocalContext) -> Scope {
    Scope { vars: l.vars@, depth: l.current_depth as int }
}

/// The scope of a body that is nested in the scope `s`, at its start.
pub open spec fn spec_deeper(s: Scope) -> Scope {
    Scope { vars: s.vars, depth: s.depth + 1 }
}

/// The scope `after` is `before` with what was bound since, at the depth of
/// `before`.
pub open spec fn spec_grown(after: Scope, before: Scope) -> bool {
    after.depth == before.depth && spec_extends(after.vars, before.vars, before.depth)
}

/// Blocks were appended to `func`, `count` of them, and nothing else was
/// built.
pub open spec fn spec_appended(a: Recorded, b: Recorded, func: FunctionHandle, count: nat) -> bool {
    &&& b.trace == a.trace + Seq::new(
        count,
        |k: int| Instr::Block { func, dest: BlockHandle { index: (a.issued.blocks + k) as usize } },
    )
    &&& b.issued == (Issued { blocks: a.issued.blocks + count, ..a.issued })
}

/// How a declaration holds its initial value. The text of a string literal
/// becomes a constant global. Another value is materialized, and brought to
/// the type of the variable if both are integers; a value for a variable that
/// is no integer is taken as it is.
pub open spec fn spec_holds(
    a: Recorded,
    b: Recorded,
    lowered: IRValueRef,
    t: Rc<IRType>,
    initial: IRValueRef,
) -> bool {
    match lowered.kind {
        IRValueRefKind::TempString(text) => (initial.kind matches IRValueRefKind::Global(gt, g)
            && gt == t && g.t == t && g.content is Text && spec_step(
            a,
            b,
            Instr::GlobalString {
                len: vstd::utf8::encode_utf8(text@).len() as usize,
                dest: g.content->Text_0,
            },
        )),
        _ => if spec_is_integral(*t) {
            exists|s: Recorded, v: IRNewValue| #[trigger]
                spec_obtains(a, s, lowered, v) && (if spec_is_integral(*v.t) {
                    exists|fitted: ValueHandle| #[trigger]
                        spec_coerces(s, b, v, *t, fitted) && initial.kind == IRValueRefKind::Val(
                            IRNewValue { value: fitted, t },
                        )
                } else {
                    b == s && initial.kind == IRValueRefKind::Val(v)
                })
        } else {
            b == a && initial == lowered
        },
    }
}

/// Lowering the initial value of a declaration, where there is one, and
/// deciding how it is held.
pub open spec fn spec_initial(
    env: Env,
    vars: Map<u64, LocalIRVariable>,
    a: Recorded,
    b: Recorded,
    value: Option<Box<ASTTreeNode>>,
    t: Rc<IRType>,
    initial: Option<IRValueRef>,
) -> bool {
    match value {
        None => initial is None && b == a,
        Some(v) => initial is Some && exists|m: Recorded, lowered: IRValueRef| #[trigger]
            spec_holds(m, b, lowered, t, initial->Some_0) && spec_lowers(
                env,
                Some(vars),
                a,
                m,
                *v,
                None,
                true,
                lowered,
            ),
    }
}

/// A variable declaration: the type is resolved, the initial value lowered, a
/// stack slot of the type taken and, where there is an initial value, filled
/// with it, and the name bound to the slot at the current depth. The name must
/// not be bound anywhere in the function.
pub open spec fn spec_declares(
    env: Env,
    a: Recorded,
    b: Recorded,
    before: Scope,
    after: Scope,
    hash: u64,
    var_type: u64,
    value: Option<Box<ASTTreeNode>>,
) -> bool {
    match spec_get(env.types, var_type) {
        None => false,
        Some(t) => !before.vars.contains_key(hash) && after.depth == before.depth
            && exists|s: Recorded, initial: Option<IRValueRef>, p: IRPointer| #[trigger]
            spec_takes_slot(s, b, t, initial, p) && after.vars == before.vars.insert(
                hash,
                LocalIRVariable { ptr: p, depth: before.depth as i64 },
            ) && spec_initial(env, before.vars, a, s, value, t, initial),
    }
}

/// Lowering a node as a value of its own, outside of a declaration.
pub open spec fn spec_evaluates(
    env: Env,
    vars: Map<u64, LocalIRVariable>,
    a: Recorded,
    b: Recorded,
    node: ASTTreeNode,
    r: IRValueRef,
) -> bool {
    spec_lowers(env, Some(vars), a, b, node, None, false, r)
}

/// A value that stands as a statement: it is lowered, and what it yields is
/// dropped.
pub open spec fn spec_statement_value(
    env: Env,
    vars: Map<u64, LocalIRVariable>,
    a: Recorded,
    b: Recorded,
    node: ASTTreeNode,
) -> bool {
    exists|r: IRValueRef| #[trigger] spec_evaluates(env, vars, a, b, node, r)
}

/// A call, as a statement or for its result: the callee is resolved, the
/// arguments are lowered, after the receiver if there is one, and the call is
/// made. It yields the slot of the result where the result is asked for.
pub open spec fn spec_call_lowers(
    env: Env,
    vars: Map<u64, LocalIRVariable>,
    a: Recorded,
    b: Recorded,
    hash: u64,
    args: Seq<Box<ASTTreeNode>>,
    owner: Option<IRPointer>,
    grab: bool,
    out: Option<IRValueRef>,
) -> bool {
    match spec_callee(env, owner, hash) {
        Some(f) => exists|s: Recorded, refs: Seq<IRValueRef>, slot: Option<IRPointer>| #[trigger]
            spec_calls(s, b, *f, refs, grab, slot) && out == (match slot {
                Some(p) => Some(IRValueRef { kind: IRValueRefKind::Ptr(p.t, p) }),
                None => None,
            }) && (match owner {
                Some(l) => refs.len() > 0 && spec_points(refs[0], l) && spec_lowers_each(
                    env,
                    Some(vars),
                    a,
                    s,
                    args,
                    false,
                    refs.subrange(1, refs.len() as int),
                ),
                None => spec_lowers_each(env, Some(vars), a, s, args, false, refs),
            }),
        None => false,
    }
}

/// A return: the value, where there is one, is lowered and materialized, and
/// the return is built.
pub open spec fn spec_returns(
    env: Env,
    vars: Map<u64, LocalIRVariable>,
    a: Recorded,
    b: Recorded,
    val: Option<Box<ASTTreeNode>>,
) -> bool {
    match val {
        Some(v) => exists|s: Recorded, m: Recorded, r: IRValueRef, x: IRNewValue| #[trigger]
            spec_obtains(s, m, r, x) && spec_lowers(env, Some(vars), a, s, *v, None, false, r)
                && spec_step(
                m,
                b,
                Instr::Return { value: Some(x.value) },
            ),
        None => spec_step(a, b, Instr::Return { value: None }),
    }
}

/// A condition: it is lowered and materialized, and must be a boolean; `flag`
/// is the integer that a conditional branch tests.
pub open spec fn spec_tested(
    env: Env,
    vars: Map<u64, LocalIRVariable>,
    a: Recorded,
    b: Recorded,
    cond: ASTTreeNode,
    flag: ValueHandle,
) -> bool {
    exists|s: Recorded, r: IRValueRef, x: IRNewValue| #[trigger]
        spec_obtains(s, b, r, x) && spec_lowers(env, Some(vars), a, s, cond, None, false, r)
            && *x.t is Bool && flag == x.value
}

/// A two-way branch on `flag`, and the cursor moved to the block that is
/// entered if it holds.
pub open spec fn spec_branched(
    a: Recorded,
    b: Recorded,
    flag: ValueHandle,
    then_block: BlockHandle,
    else_block: BlockHandle,
) -> bool {
    exists|s: Recorded| #[trigger]
        spec_step(a, s, Instr::ConditionalBranch { cond: flag, then_block, else_block })
            && spec_step(s, b, Instr::Position { block: then_block })
}

/// A jump to `target`, and the cursor moved to `next`.
pub open spec fn spec_jumped(a: Recorded, b: Recorded, target: BlockHandle, next: BlockHandle) -> bool {
    exists|s: Recorded| #[trigger]
        spec_step(a, s, Instr::Branch { target }) && spec_step(
            s,
            b,
            Instr::Position { block: next },
        )
}

/// The members of a body, lowered in order.
pub open spec fn spec_members_lower(
    env: Env,
    func: FunctionHandle,
    a: Recorded,
    b: Recorded,
    before: Scope,
    after: Scope,
    body: Seq<Box<ASTTreeNode>>,
) -> bool
    decreases body, 0nat,
{
    if body.len() == 0 {
        b == a && after == before
    } else {
        exists|s: Recorded, mid: Scope|
            #![trigger spec_reached(a, s), spec_grown(mid, before)]
            spec_reached(a, s) && spec_grown(mid, before) && spec_member_lowers(
                env,
                func,
                a,
                s,
                before,
                mid,
                *body[0],
            ) && spec_members_lower(
                env,
                func,
                s,
                b,
                mid,
                after,
                body.subrange(1, body.len() as int),
            )
    }
}

/// A body: its members are lowered in order, and where the body is a nested
/// one that ends here, the depth falls by one and what the body bound is
/// dropped.
pub open spec fn spec_body_lowers(
    env: Env,
    func: FunctionHandle,
    a: Recorded,
    b: Recorded,
    before: Scope,
    after: Scope,
    body: Seq<Box<ASTTreeNode>>,
    drop_body: bool,
) -> bool {
    exists|inner: Scope| #[trigger]
        spec_grown(inner, before) && spec_members_lower(env, func, a, b, before, inner, body)
            && after == (if drop_body {
            Scope { vars: spec_pruned(inner.vars, before.depth - 1), depth: before.depth - 1 }
        } else {
            inner
        })
}

/// A nested body: its members are lowered one depth further in, and it ends
/// in a jump to `exit`. What it bound is gone after it.
pub open spec fn spec_nested_lowers(
    env: Env,
    func: FunctionHandle,
    a: Recorded,
    b: Recorded,
    scope: Scope,
    body: Seq<Box<ASTTreeNode>>,
    exit: BlockHandle,
) -> bool
    decreases body, 1nat,
{
    exists|s: Recorded, inner: Scope|
        #![trigger spec_step(s, b, Instr::Branch { target: exit }), spec_grown(inner, spec_deeper(scope))]
        spec_members_lower(env, func, a, s, spec_deeper(scope), inner, body) && spec_grown(
            inner,
            spec_deeper(scope),
        ) && spec_step(s, b, Instr::Branch { target: exit })
}

/// What follows the body of a condition in a cascade: nothing, the test of the
/// next condition, or the body of the `else`.
pub open spec fn spec_rest_lowers(
    env: Env,
    func: FunctionHandle,
    plan: CascadePlan,
    i: int,
    a: Recorded,
    b: Recorded,
    scope: Scope,
    else_statement: Option<Box<ASTTreeNode>>,
) -> bool
    decreases else_statement, 1nat,
{
    match else_statement {
        None => b == a,
        Some(n) => exists|s: Recorded| #[trigger]
            spec_step(a, s, Instr::Position { block: plan.spec_else_target(i) }) && match *n {
                ASTTreeNode::IfElseStatement { cond: Some(_), .. } => spec_chain_lowers(
                    env,
                    func,
                    plan,
                    i + 1,
                    s,
                    b,
                    scope,
                    *n,
                ),
                ASTTreeNode::IfElseStatement { cond: None, body, .. } => spec_nested_lowers(
                    env,
                    func,
                    s,
                    b,
                    scope,
                    body@,
                    plan.spec_exit(),
                ),
                ASTTreeNode::ElseStatement { body } => spec_nested_lowers(
                    env,
                    func,
                    s,
                    b,
                    scope,
                    body@,
                    plan.spec_exit(),
                ),
                _ => false,
            },
    }
}

/// The cascade from condition `i` on: the condition is tested, its body
/// lowered as a nested body, and what follows it lowered in the block that the
/// test leads to if the condition does not hold.
pub open spec fn spec_chain_lowers(
    env: Env,
    func: FunctionHandle,
    plan: CascadePlan,
    i: int,
    a: Recorded,
    b: Recorded,
    scope: Scope,
    node: ASTTreeNode,
) -> bool
    decreases node, 0nat,
{
    match node {
        ASTTreeNode::IfStatement { cond, body, else_statement, depth: _ } => exists|
            s1: Recorded,
            s2: Recorded,
            s3: Recorded,
            flag: ValueHandle,
        |
            #![trigger spec_branched(s1, s2, flag, plan.spec_then_block(i), plan.spec_else_target(i)), spec_reached(s2, s3)]
            spec_tested(env, scope.vars, a, s1, *cond, flag) && spec_branched(
                s1,
                s2,
                flag,
                plan.spec_then_block(i),
                plan.spec_else_target(i),
            ) && spec_reached(s2, s3) && spec_nested_lowers(
                env,
                func,
                s2,
                s3,
                scope,
                body@,
                plan.spec_exit(),
            ) && spec_rest_lowers(env, func, plan, i, s3, b, scope, else_statement),
        ASTTreeNode::IfElseStatement { cond: Some(cond), body, else_statement } => exists|
            s1: Recorded,
            s2: Recorded,
            s3: Recorded,
            flag: ValueHandle,
        |
            #![trigger spec_branched(s1, s2, flag, plan.spec_then_block(i), plan.spec_else_target(i)), spec_reached(s2, s3)]
            spec_tested(env, scope.vars, a, s1, *cond, flag) && spec_branched(
                s1,
                s2,
                flag,
                plan.spec_then_block(i),
                plan.spec_else_target(i),
            ) && spec_reached(s2, s3) && spec_nested_lowers(
                env,
                func,
                s2,
                s3,
                scope,
                body@,
                plan.spec_exit(),
            ) && spec_rest_lowers(env, func, plan, i, s3, b, scope, else_statement),
        _ => false,
    }
}

/// An `if` with its branches: the blocks of the cascade are appended, the
/// cascade is lowered from the first condition on, and the cursor is left in
/// the exit block.
pub open spec fn spec_if_lowers(
    env: Env,
    func: FunctionHandle,
    a: Recorded,
    b: Recorded,
    scope: Scope,
    node: ASTTreeNode,
) -> bool
    decreases node, 1nat,
{
    let plan = CascadePlan {
        first: a.issued.blocks as usize,
        conditions: spec_chain_conditions(node) as usize,
        has_else: spec_chain_has_else(node),
    };
    node is IfStatement && spec_chain_wf(node) && plan.spec_wf() && exists|
        s0: Recorded,
        s1: Recorded,
    |
        #![trigger spec_appended(a, s0, func, plan.spec_block_count()), spec_step(s1, b, Instr::Position { block: plan.spec_exit() })]
        spec_appended(a, s0, func, plan.spec_block_count()) && spec_chain_lowers(
            env,
            func,
            plan,
            0,
            s0,
            s1,
            scope,
            node,
        ) && spec_step(s1, b, Instr::Position { block: plan.spec_exit() })
}

/// A `for`: three blocks are appended, for the test, the body and what comes
/// after the loop. The initializer is lowered in the enclosing body and
/// control jumps to the test; the test branches to the body or past the loop;
/// the body is a nested body that ends with the increment and a jump back to
/// the test; the cursor is left past the loop.
pub open spec fn spec_for_lowers(
    env: Env,
    func: FunctionHandle,
    a: Recorded,
    b: Recorded,
    before: Scope,
    after: Scope,
    node: ASTTreeNode,
) -> bool
    decreases node, 1nat,
{
    let test = BlockHandle { index: a.issued.blocks as usize };
    let inside = BlockHandle { index: (a.issued.blocks + 1) as usize };
    let past = BlockHandle { index: (a.issued.blocks + 2) as usize };
    match node {
        ASTTreeNode::ForBlock { initial_state, cond, increment, body } => exists|
            s0: Recorded,
            s1: Recorded,
            s2: Recorded,
            s3: Recorded,
            s4: Recorded,
            s5: Recorded,
            s6: Recorded,
            flag: ValueHandle,
            inner: Scope,
            stepped: Scope,
        |
            #![trigger spec_appended(a, s0, func, 3), spec_jumped(s1, s2, test, test), spec_branched(s3, s4, flag, inside, past), spec_reached(s4, s5), spec_grown(stepped, inner), spec_jumped(s6, b, test, past)]
            spec_appended(a, s0, func, 3) && spec_member_lowers(
                env,
                func,
                s0,
                s1,
                before,
                after,
                *initial_state,
            ) && spec_grown(after, before) && spec_jumped(s1, s2, test, test) && spec_tested(
                env,
                after.vars,
                s2,
                s3,
                *cond,
                flag,
            ) && spec_branched(s3, s4, flag, inside, past) && spec_reached(s4, s5)
                && spec_members_lower(env, func, s4, s5, spec_deeper(after), inner, body@)
                && spec_grown(inner, spec_deeper(after)) && spec_member_lowers(
                env,
                func,
                s5,
                s6,
                inner,
                stepped,
                *increment,
            ) && spec_grown(stepped, inner) && spec_jumped(
                s6,
                b,
                test,
                past,
            ),
        _ => false,
    }
}

/// A member of a body.
pub open spec fn spec_member_lowers(
    env: Env,
    func: FunctionHandle,
    a: Recorded,
    b: Recorded,
    before: Scope,
    after: Scope,
    node: ASTTreeNode,
) -> bool
    decreases node, 3nat,
{
    match node {
        ASTTreeNode::VarDeclaration { var_name, var_type, value } => spec_declares(
            env,
            a,
            b,
            before,
            after,
            var_name.hash,
            var_type,
            value,
        ),
        ASTTreeNode::MathResult { lval: _, rval: _, operator: _, assigns } => assigns && after
            == before && spec_statement_value(env, before.vars, a, b, node),
        ASTTreeNode::StructLRFunction { .. } => after == before && spec_statement_value(
            env,
            before.vars,
            a,
            b,
            node,
        ),
        ASTTreeNode::StructLRVariable { .. } => after == before && spec_statement_value(
            env,
            before.vars,
            a,
            b,
            node,
        ),
        ASTTreeNode::FunctionCall { func: name, args } => after == before && spec_call_lowers(
            env,
            before.vars,
            a,
            b,
            name.hash,
            args@,
            None,
            false,
            None,
        ),
        ASTTreeNode::ReturnStatement { val } => after == before && spec_returns(
            env,
            before.vars,
            a,
            b,
            val,
        ),
        ASTTreeNode::IfStatement { .. } => after == before && spec_if_lowers(
            env,
            func,
            a,
            b,
            before,
            node,
        ),
        ASTTreeNode::ForBlock { .. } => spec_for_lowers(env, func, a, b, before, after, node),
        _ => false,
    }
}

} // verus!

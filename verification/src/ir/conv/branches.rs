//! How many two-way branches lowering builds.
//!
//! No rule for a value builds a two-way branch, and no declaration, call or
//! return does. An `if` builds one for each of its conditions, a `for` one for
//! its own condition, and each as many more as the members of its bodies
//! build.

use vstd::prelude::*;
use std::rc::Rc;
use crate::commons::utils::map::spec_get;
use crate::ir::backend::{FunctionHandle, Instr, ValueHandle, argument_entries};
use crate::ir::conv::cascade::CascadePlan;
use crate::ir::conv::lowered::{Env, spec_callee, spec_lowers, spec_lowers_each, spec_math_built, spec_points, spec_resolves};
use crate::ir::conv::members::{Scope, spec_appended, spec_branched, spec_call_lowers, spec_chain_lowers, spec_declares, spec_deeper, spec_evaluates, spec_for_lowers, spec_grown, spec_holds, spec_if_lowers, spec_initial, spec_jumped, spec_member_lowers, spec_members_lower, spec_nested_lowers, spec_rest_lowers, spec_returns, spec_statement_value, spec_tested};
use crate::ir::ctx::LocalIRVariable;
use crate::ir::irstruct::funcs::IRFunction;
use crate::ir::irstruct::ptr::IRPointer;
use crate::ir::refs::{IRValueRef, IRValueRefKind};
use crate::ir::rules::{Recorded, spec_call_built, spec_calls, spec_coerces, spec_compares, spec_materializes, spec_negates, spec_obtains, spec_reached, spec_step, spec_takes_slot};
use crate::ir::types::typing::IRType;
use crate::ir::values::{IRNewValue, spec_is_integral};
use crate::lexer::toks::comp::ComparingOperator;
use crate::lexer::toks::math::MathOperator;
use crate::parser::ast::tree::ASTTreeNode;

verus! {

/// How many two-way branches a record holds.
pub open spec fn spec_branches(trace: Seq<Instr>) -> nat
    decreases trace.len(),
{
    if trace.len() == 0 {
        0
    } else {
        spec_branches(trace.drop_last()) + if trace.last() is ConditionalBranch {
            1nat
        } else {
            0nat
        }
    }
}

pub proof fn lemma_branches_push(trace: Seq<Instr>, instr: Instr)
    ensures
        spec_branches(trace.push(instr)) == spec_branches(trace) + if instr is ConditionalBranch {
            1nat
        } else {
            0nat
        },
{
    assert(trace.push(instr).drop_last() =~= trace);
}

pub proof fn lemma_branches_add(a: Seq<Instr>, b: Seq<Instr>)
    ensures
        spec_branches(a + b) == spec_branches(a) + spec_branches(b),
    decreases b.len(),
{
    if b.len() == 0 {
        assert(a + b =~= a);
    } else {
        lemma_branches_add(a, b.drop_last());
        assert((a + b).drop_last() =~= a + b.drop_last());
    }
}

/// A list of entries of which none is a two-way branch holds none.
pub proof fn lemma_branches_none(t: Seq<Instr>)
    requires
        forall|i: int| 0 <= i < t.len() ==> !(#[trigger] t[i] is ConditionalBranch),
    ensures
        spec_branches(t) == 0,
    decreases t.len(),
{
    if t.len() > 0 {
        lemma_branches_none(t.drop_last());
    }
}

/// A step that builds no two-way branch leaves their number as it was.
pub proof fn lemma_quiet(a: Recorded, b: Recorded)
    requires
        exists|instr: Instr| #[trigger] spec_step(a, b, instr) && !(instr is ConditionalBranch),
    ensures
        spec_branches(b.trace) == spec_branches(a.trace),
{
    let instr = choose|instr: Instr| #[trigger]
        spec_step(a, b, instr) && !(instr is ConditionalBranch);
    lemma_branches_push(a.trace, instr);
}

pub proof fn lemma_step(a: Recorded, b: Recorded, instr: Instr)
    requires
        spec_step(a, b, instr),
    ensures
        spec_branches(b.trace) == spec_branches(a.trace) + if instr is ConditionalBranch {
            1nat
        } else {
            0nat
        },
{
    lemma_branches_push(a.trace, instr);
}

pub proof fn lemma_obtains(a: Recorded, b: Recorded, r: IRValueRef, v: IRNewValue)
    requires
        spec_obtains(a, b, r, v),
    ensures
        spec_branches(b.trace) == spec_branches(a.trace),
{
    if b != a {
        lemma_quiet(a, b);
    }
}

pub proof fn lemma_takes_slot(
    a: Recorded,
    b: Recorded,
    t: Rc<IRType>,
    initial: Option<IRValueRef>,
    p: IRPointer,
)
    requires
        spec_takes_slot(a, b, t, initial, p),
    ensures
        spec_branches(b.trace) == spec_branches(a.trace),
{
    let s = choose|s: Recorded| #[trigger]
        spec_step(a, s, Instr::Alloca { ty: crate::ir::types::typing::spec_base_type(*t), dest: p.ptr })
            && match initial {
            None => b == s,
            Some(first) => exists|m: Recorded, v: IRNewValue| #[trigger]
                spec_obtains(s, m, first, v) && spec_step(
                    m,
                    b,
                    Instr::Store { ptr: p.ptr, value: v.value },
                ),
        };
    lemma_quiet(a, s);
    if initial is Some {
        let first = initial->Some_0;
        let (m, v) = choose|m: Recorded, v: IRNewValue| #[trigger]
            spec_obtains(s, m, first, v) && spec_step(
                m,
                b,
                Instr::Store { ptr: p.ptr, value: v.value },
            );
        lemma_obtains(s, m, first, v);
        lemma_quiet(m, b);
    }
}

pub proof fn lemma_materializes(
    a: Recorded,
    b: Recorded,
    refs: Seq<IRValueRef>,
    handles: Seq<ValueHandle>,
)
    requires
        spec_materializes(a, b, refs, handles),
    ensures
        spec_branches(b.trace) == spec_branches(a.trace),
    decreases refs.len(),
{
    if refs.len() > 0 {
        let (s, v) = choose|s: Recorded, v: IRNewValue| #[trigger]
            spec_obtains(a, s, refs[0], v) && handles[0] == v.value && spec_materializes(
                s,
                b,
                refs.subrange(1, refs.len() as int),
                handles.subrange(1, handles.len() as int),
            );
        lemma_obtains(a, s, refs[0], v);
        lemma_materializes(
            s,
            b,
            refs.subrange(1, refs.len() as int),
            handles.subrange(1, handles.len() as int),
        );
    }
}

pub proof fn lemma_calls(
    a: Recorded,
    b: Recorded,
    f: IRFunction,
    refs: Seq<IRValueRef>,
    grab: bool,
    out: Option<IRPointer>,
)
    requires
        spec_calls(a, b, f, refs, grab, out),
    ensures
        spec_branches(b.trace) == spec_branches(a.trace),
{
    let (s, m, handles, dest) = choose|
        s: Recorded,
        m: Recorded,
        handles: Seq<ValueHandle>,
        dest: Option<ValueHandle>,
    | #[trigger]
        spec_call_built(s, m, f, handles, dest) && spec_materializes(a, s, refs, handles) && (
        if grab && f.ret_type is Some && dest is Some {
            out is Some && spec_takes_slot(
                m,
                b,
                f.ret_type->Some_0,
                Some(
                    IRValueRef {
                        kind: IRValueRefKind::Val(
                            IRNewValue { value: dest->Some_0, t: f.ret_type->Some_0 },
                        ),
                    },
                ),
                out->Some_0,
            )
        } else {
            out is None && b == m
        });
    lemma_materializes(a, s, refs, handles);
    lemma_branches_none(argument_entries(handles));
    lemma_branches_add(s.trace, argument_entries(handles));
    lemma_branches_push(
        s.trace + argument_entries(handles),
        Instr::Call { func: f.func, args: handles.len() as usize, dest },
    );
    if grab && f.ret_type is Some && dest is Some {
        lemma_takes_slot(
            m,
            b,
            f.ret_type->Some_0,
            Some(
                IRValueRef {
                    kind: IRValueRefKind::Val(
                        IRNewValue { value: dest->Some_0, t: f.ret_type->Some_0 },
                    ),
                },
            ),
            out->Some_0,
        );
    }
}

pub proof fn lemma_negates(
    types: Map<u64, Rc<IRType>>,
    a: Recorded,
    b: Recorded,
    r: IRValueRef,
    out: IRNewValue,
)
    requires
        spec_negates(types, a, b, r, out),
    ensures
        spec_branches(b.trace) == spec_branches(a.trace),
{
    let (s, v) = choose|s: Recorded, v: IRNewValue| #[trigger]
        spec_obtains(a, s, r, v) && *v.t is Bool && exists|m: Recorded, one: ValueHandle| #[trigger]
            spec_step(
                s,
                m,
                Instr::ConstUnsigned {
                    ty: crate::ir::types::typing::spec_base_type(*out.t),
                    value: 1,
                    dest: one,
                },
            ) && spec_step(
                m,
                b,
                Instr::Binary {
                    op: crate::ir::backend::BinaryOp::Xor,
                    lhs: v.value,
                    rhs: one,
                    dest: out.value,
                },
            );
    lemma_obtains(a, s, r, v);
    let (m, one) = choose|m: Recorded, one: ValueHandle| #[trigger]
        spec_step(
            s,
            m,
            Instr::ConstUnsigned {
                ty: crate::ir::types::typing::spec_base_type(*out.t),
                value: 1,
                dest: one,
            },
        ) && spec_step(
            m,
            b,
            Instr::Binary {
                op: crate::ir::backend::BinaryOp::Xor,
                lhs: v.value,
                rhs: one,
                dest: out.value,
            },
        );
    lemma_quiet(s, m);
    lemma_quiet(m, b);
}

pub proof fn lemma_compares(
    types: Map<u64, Rc<IRType>>,
    a: Recorded,
    b: Recorded,
    x: IRValueRef,
    y: IRValueRef,
    comp: ComparingOperator,
    out: IRNewValue,
)
    requires
        spec_compares(types, a, b, x, y, comp, out),
    ensures
        spec_branches(b.trace) == spec_branches(a.trace),
{
    let (s1, left) = choose|s1: Recorded, left: IRNewValue| #[trigger]
        spec_obtains(a, s1, x, left) && spec_is_integral(*left.t) && exists|
            s2: Recorded,
            right: IRNewValue,
        | #[trigger]
            spec_obtains(s1, s2, y, right) && exists|s3: Recorded, fitted: ValueHandle| #[trigger]
                spec_coerces(s2, s3, right, *left.t, fitted) && spec_step(
                    s3,
                    b,
                    Instr::Compare {
                        predicate: crate::ir::bools::spec_select_predicate(
                            comp,
                            crate::ir::types::typing::spec_is_signed(*left.t),
                        ),
                        lhs: left.value,
                        rhs: fitted,
                        dest: out.value,
                    },
                );
    lemma_obtains(a, s1, x, left);
    let (s2, right) = choose|s2: Recorded, right: IRNewValue| #[trigger]
        spec_obtains(s1, s2, y, right) && exists|s3: Recorded, fitted: ValueHandle| #[trigger]
            spec_coerces(s2, s3, right, *left.t, fitted) && spec_step(
                s3,
                b,
                Instr::Compare {
                    predicate: crate::ir::bools::spec_select_predicate(
                        comp,
                        crate::ir::types::typing::spec_is_signed(*left.t),
                    ),
                    lhs: left.value,
                    rhs: fitted,
                    dest: out.value,
                },
            );
    lemma_obtains(s1, s2, y, right);
    let (s3, fitted) = choose|s3: Recorded, fitted: ValueHandle| #[trigger]
        spec_coerces(s2, s3, right, *left.t, fitted) && spec_step(
            s3,
            b,
            Instr::Compare {
                predicate: crate::ir::bools::spec_select_predicate(
                    comp,
                    crate::ir::types::typing::spec_is_signed(*left.t),
                ),
                lhs: left.value,
                rhs: fitted,
                dest: out.value,
            },
        );
    assert(spec_branches(s3.trace) == spec_branches(s2.trace)) by {
        if s3 != s2 {
            lemma_quiet(s2, s3);
        }
    }
    lemma_quiet(s3, b);
}

pub proof fn lemma_math_built(
    a: Recorded,
    b: Recorded,
    x: IRValueRef,
    y: IRValueRef,
    operator: MathOperator,
    assigns: bool,
    r: IRValueRef,
)
    requires
        spec_math_built(a, b, x, y, operator, assigns, r),
    ensures
        spec_branches(b.trace) == spec_branches(a.trace),
{
    let (s1, left) = choose|s1: Recorded, left: IRNewValue| #[trigger]
        spec_obtains(a, s1, x, left) && exists|s2: Recorded, right: IRNewValue| #[trigger]
            spec_obtains(s1, s2, y, right) && exists|s3: Recorded, fitted: ValueHandle| #[trigger]
                spec_coerces(s2, s3, right, *x.spec_type()->Some_0, fitted) && exists|
                    s4: Recorded,
                    out: ValueHandle,
                | #[trigger]
                    spec_step(
                        s3,
                        s4,
                        Instr::Binary {
                            op: crate::ir::math::spec_math_op(operator),
                            lhs: left.value,
                            rhs: fitted,
                            dest: out,
                        },
                    ) && r.kind == IRValueRefKind::Val(
                        IRNewValue { value: out, t: x.spec_type()->Some_0 },
                    ) && (if assigns {
                        x.kind matches IRValueRefKind::Ptr(_, p) && spec_step(
                            s4,
                            b,
                            Instr::Store { ptr: p.ptr, value: out },
                        )
                    } else {
                        b == s4
                    });
    lemma_obtains(a, s1, x, left);
    let (s2, right) = choose|s2: Recorded, right: IRNewValue| #[trigger]
        spec_obtains(s1, s2, y, right) && exists|s3: Recorded, fitted: ValueHandle| #[trigger]
            spec_coerces(s2, s3, right, *x.spec_type()->Some_0, fitted) && exists|
                s4: Recorded,
                out: ValueHandle,
            | #[trigger]
                spec_step(
                    s3,
                    s4,
                    Instr::Binary {
                        op: crate::ir::math::spec_math_op(operator),
                        lhs: left.value,
                        rhs: fitted,
                        dest: out,
                    },
                ) && r.kind == IRValueRefKind::Val(
                    IRNewValue { value: out, t: x.spec_type()->Some_0 },
                ) && (if assigns {
                    x.kind matches IRValueRefKind::Ptr(_, p) && spec_step(
                        s4,
                        b,
                        Instr::Store { ptr: p.ptr, value: out },
                    )
                } else {
                    b == s4
                });
    lemma_obtains(s1, s2, y, right);
    let (s3, fitted) = choose|s3: Recorded, fitted: ValueHandle| #[trigger]
        spec_coerces(s2, s3, right, *x.spec_type()->Some_0, fitted) && exists|
            s4: Recorded,
            out: ValueHandle,
        | #[trigger]
            spec_step(
                s3,
                s4,
                Instr::Binary {
                    op: crate::ir::math::spec_math_op(operator),
                    lhs: left.value,
                    rhs: fitted,
                    dest: out,
                },
            ) && r.kind == IRValueRefKind::Val(
                IRNewValue { value: out, t: x.spec_type()->Some_0 },
            ) && (if assigns {
                x.kind matches IRValueRefKind::Ptr(_, p) && spec_step(
                    s4,
                    b,
                    Instr::Store { ptr: p.ptr, value: out },
                )
            } else {
                b == s4
            });
    assert(spec_branches(s3.trace) == spec_branches(s2.trace)) by {
        if s3 != s2 {
            lemma_quiet(s2, s3);
        }
    }
    let (s4, out) = choose|s4: Recorded, out: ValueHandle| #[trigger]
        spec_step(
            s3,
            s4,
            Instr::Binary {
                op: crate::ir::math::spec_math_op(operator),
                lhs: left.value,
                rhs: fitted,
                dest: out,
            },
        ) && r.kind == IRValueRefKind::Val(IRNewValue { value: out, t: x.spec_type()->Some_0 })
            && (if assigns {
            x.kind matches IRValueRefKind::Ptr(_, p) && spec_step(
                s4,
                b,
                Instr::Store { ptr: p.ptr, value: out },
            )
        } else {
            b == s4
        });
    lemma_quiet(s3, s4);
    if b != s4 {
        lemma_quiet(s4, b);
    }
}

pub proof fn lemma_resolves(
    ctx: Env,
    vars: Option<Map<u64, LocalIRVariable>>,
    a: Recorded,
    b: Recorded,
    hash: u64,
    left: Option<IRPointer>,
    r: IRValueRef,
)
    requires
        spec_resolves(ctx, vars, a, b, hash, left, r),
    ensures
        spec_branches(b.trace) == spec_branches(a.trace),
{
    if b != a {
        lemma_quiet(a, b);
    }
}

pub proof fn lemma_lowers_each(
    ctx: Env,
    vars: Option<Map<u64, LocalIRVariable>>,
    a: Recorded,
    b: Recorded,
    nodes: Seq<Box<ASTTreeNode>>,
    in_decl: bool,
    refs: Seq<IRValueRef>,
)
    requires
        spec_lowers_each(ctx, vars, a, b, nodes, in_decl, refs),
    ensures
        spec_branches(b.trace) == spec_branches(a.trace),
    decreases nodes, 0nat,
{
    if nodes.len() > 0 {
        let s = choose|s: Recorded| #[trigger]
            spec_reached(a, s) && spec_lowers(ctx, vars, a, s, *nodes[0], None, in_decl, refs[0])
                && spec_lowers_each(
                ctx,
                vars,
                s,
                b,
                nodes.subrange(1, nodes.len() as int),
                in_decl,
                refs.subrange(1, refs.len() as int),
            );
        lemma_lowers(ctx, vars, a, s, *nodes[0], None, in_decl, refs[0]);
        lemma_lowers_each(
            ctx,
            vars,
            s,
            b,
            nodes.subrange(1, nodes.len() as int),
            in_decl,
            refs.subrange(1, refs.len() as int),
        );
    }
}

/// No rule for a value builds a two-way branch.
pub proof fn lemma_lowers(
    ctx: Env,
    vars: Option<Map<u64, LocalIRVariable>>,
    a: Recorded,
    b: Recorded,
    node: ASTTreeNode,
    left: Option<IRPointer>,
    in_decl: bool,
    r: IRValueRef,
)
    requires
        spec_lowers(ctx, vars, a, b, node, left, in_decl, r),
    ensures
        spec_branches(b.trace) == spec_branches(a.trace),
    decreases node, 1nat,
{
    match node {
        ASTTreeNode::IntegerLit(v) => {
            lemma_quiet(a, b);
        },
        ASTTreeNode::StringLit(s) => {
            if b != a {
                lemma_quiet(a, b);
            }
        },
        ASTTreeNode::VariableReference(e) => {
            lemma_resolves(ctx, vars, a, b, e.hash, left, r);
        },
        ASTTreeNode::FunctionCall { func, args } => {
            let f = spec_callee(ctx, left, func.hash)->Some_0;
            let (s, refs, out) = choose|s: Recorded, refs: Seq<IRValueRef>, out: IRPointer| #[trigger]
                spec_calls(s, b, *f, refs, true, Some(out)) && r.kind == IRValueRefKind::Ptr(
                    out.t,
                    out,
                ) && (match left {
                    Some(l) => refs.len() > 0 && spec_points(refs[0], l) && spec_lowers_each(
                        ctx,
                        vars,
                        a,
                        s,
                        args@,
                        in_decl,
                        refs.subrange(1, refs.len() as int),
                    ),
                    None => spec_lowers_each(ctx, vars, a, s, args@, in_decl, refs),
                });
            assert(spec_branches(b.trace) == spec_branches(s.trace)) by {
                lemma_calls(s, b, *f, refs, true, Some(out));
            }
            if left is Some {
                lemma_lowers_each(
                    ctx,
                    vars,
                    a,
                    s,
                    args@,
                    in_decl,
                    refs.subrange(1, refs.len() as int),
                );
            } else {
                lemma_lowers_each(ctx, vars, a, s, args@, in_decl, refs);
            }
        },
        ASTTreeNode::MathResult { lval, rval, operator, assigns } => {
            let (s1, s2, x, y) = choose|s1: Recorded, s2: Recorded, x: IRValueRef, y: IRValueRef|
                #![trigger spec_reached(a, s1), spec_math_built(s2, b, x, y, operator, assigns, r)]
                spec_reached(a, s1) && spec_lowers(ctx, vars, a, s1, *lval, None, in_decl, x)
                    && spec_lowers(ctx, vars, s1, s2, *rval, None, in_decl, y) && spec_math_built(
                    s2,
                    b,
                    x,
                    y,
                    operator,
                    assigns,
                    r,
                );
            lemma_lowers(ctx, vars, a, s1, *lval, None, in_decl, x);
            lemma_lowers(ctx, vars, s1, s2, *rval, None, in_decl, y);
            lemma_math_built(s2, b, x, y, operator, assigns, r);
        },
        ASTTreeNode::OperatorBasedConditionMember { lval, rval, operator } => {
            let (s1, s2, x, y, out) = choose|
                s1: Recorded,
                s2: Recorded,
                x: IRValueRef,
                y: IRValueRef,
                out: IRNewValue,
            |
                #![trigger spec_reached(a, s1), spec_compares(ctx.types, s2, b, x, y, operator, out)]
                spec_reached(a, s1) && spec_lowers(ctx, vars, a, s1, *lval, None, in_decl, x)
                    && spec_lowers(ctx, vars, s1, s2, *rval, None, in_decl, y) && spec_compares(
                    ctx.types,
                    s2,
                    b,
                    x,
                    y,
                    operator,
                    out,
                ) && r.kind == IRValueRefKind::Val(out);
            lemma_lowers(ctx, vars, a, s1, *lval, None, in_decl, x);
            lemma_lowers(ctx, vars, s1, s2, *rval, None, in_decl, y);
            lemma_compares(ctx.types, s2, b, x, y, operator, out);
        },
        ASTTreeNode::BooleanBasedConditionMember { val, negate } => {
            if negate {
                let (s, x, out) = choose|s: Recorded, x: IRValueRef, out: IRNewValue| #[trigger]
                    spec_negates(ctx.types, s, b, x, out) && spec_lowers(
                        ctx,
                        vars,
                        a,
                        s,
                        *val,
                        None,
                        in_decl,
                        x,
                    ) && r.kind == IRValueRefKind::Val(out);
                lemma_lowers(ctx, vars, a, s, *val, None, in_decl, x);
                lemma_negates(ctx.types, s, b, x, out);
            } else {
                lemma_lowers(ctx, vars, a, b, *val, None, in_decl, r);
            }
        },
        ASTTreeNode::StructLRFunction { l, r: right } => {
            let (s, x, p) = choose|s: Recorded, x: IRValueRef, p: IRPointer|
                #![trigger spec_reached(a, s), spec_points(x, p)]
                spec_reached(a, s) && spec_points(x, p) && spec_lowers(
                    ctx,
                    vars,
                    a,
                    s,
                    *l,
                    left,
                    in_decl,
                    x,
                ) && spec_lowers(ctx, vars, s, b, *right, Some(p), in_decl, r);
            lemma_lowers(ctx, vars, a, s, *l, left, in_decl, x);
            lemma_lowers(ctx, vars, s, b, *right, Some(p), in_decl, r);
        },
        ASTTreeNode::StructLRVariable { l, r: right } => {
            let (s, x, p) = choose|s: Recorded, x: IRValueRef, p: IRPointer|
                #![trigger spec_reached(a, s), spec_points(x, p)]
                spec_reached(a, s) && spec_points(x, p) && spec_lowers(
                    ctx,
                    vars,
                    a,
                    s,
                    *l,
                    left,
                    in_decl,
                    x,
                ) && spec_lowers(ctx, vars, s, b, *right, Some(p), in_decl, r);
            lemma_lowers(ctx, vars, a, s, *l, left, in_decl, x);
            lemma_lowers(ctx, vars, s, b, *right, Some(p), in_decl, r);
        },
        _ => {},
    }
}

/// How many conditions a node tests: one for an `if` and for each `else if`
/// of its chain, one for a `for`, and those of the members of their bodies.
pub open spec fn spec_conditions(node: ASTTreeNode) -> nat
    decreases node, 1nat,
{
    match node {
        ASTTreeNode::IfStatement { cond: _, body, else_statement, depth: _ } => 1
            + spec_conditions_each(body@) + match else_statement {
            Some(e) => spec_conditions(*e),
            None => 0,
        },
        ASTTreeNode::IfElseStatement { cond: Some(_), body, else_statement } => 1
            + spec_conditions_each(body@) + match else_statement {
            Some(e) => spec_conditions(*e),
            None => 0,
        },
        ASTTreeNode::IfElseStatement { cond: None, body, else_statement: _ } => spec_conditions_each(
            body@,
        ),
        ASTTreeNode::ElseStatement { body } => spec_conditions_each(body@),
        ASTTreeNode::ForBlock { initial_state, cond: _, increment, body } => 1 + spec_conditions(
            *initial_state,
        ) + spec_conditions_each(body@) + spec_conditions(*increment),
        _ => 0,
    }
}

/// How many conditions the members of a body test.
pub open spec fn spec_conditions_each(body: Seq<Box<ASTTreeNode>>) -> nat
    decreases body, 0nat,
{
    if body.len() == 0 {
        0
    } else {
        spec_conditions(*body[0]) + spec_conditions_each(body.subrange(1, body.len() as int))
    }
}

pub proof fn lemma_holds(
    a: Recorded,
    b: Recorded,
    lowered: IRValueRef,
    t: Rc<IRType>,
    initial: IRValueRef,
)
    requires
        spec_holds(a, b, lowered, t, initial),
    ensures
        spec_branches(b.trace) == spec_branches(a.trace),
{
    if lowered.kind is TempString {
        lemma_quiet(a, b);
    } else if b != a {
        let (s, v) = choose|s: Recorded, v: IRNewValue| #[trigger]
            spec_obtains(a, s, lowered, v) && (if spec_is_integral(*v.t) {
                exists|fitted: ValueHandle| #[trigger]
                    spec_coerces(s, b, v, *t, fitted) && initial.kind == IRValueRefKind::Val(
                        IRNewValue { value: fitted, t },
                    )
            } else {
                b == s && initial.kind == IRValueRefKind::Val(v)
            });
        lemma_obtains(a, s, lowered, v);
        if b != s {
            lemma_quiet(s, b);
        }
    }
}

pub proof fn lemma_initial(
    env: Env,
    vars: Map<u64, LocalIRVariable>,
    a: Recorded,
    b: Recorded,
    value: Option<Box<ASTTreeNode>>,
    t: Rc<IRType>,
    initial: Option<IRValueRef>,
)
    requires
        spec_initial(env, vars, a, b, value, t, initial),
    ensures
        spec_branches(b.trace) == spec_branches(a.trace),
{
    if value is Some {
        let v = value->Some_0;
        let (m, lowered) = choose|m: Recorded, lowered: IRValueRef| #[trigger]
            spec_holds(m, b, lowered, t, initial->Some_0) && spec_lowers(
                env,
                Some(vars),
                a,
                m,
                *v,
                None,
                true,
                lowered,
            );
        lemma_lowers(env, Some(vars), a, m, *v, None, true, lowered);
        lemma_holds(m, b, lowered, t, initial->Some_0);
    }
}

pub proof fn lemma_declares(
    env: Env,
    a: Recorded,
    b: Recorded,
    before: Scope,
    after: Scope,
    hash: u64,
    var_type: u64,
    value: Option<Box<ASTTreeNode>>,
)
    requires
        spec_declares(env, a, b, before, after, hash, var_type, value),
    ensures
        spec_branches(b.trace) == spec_branches(a.trace),
{
    let t = spec_get(env.types, var_type)->Some_0;
    let (s, initial, p) = choose|s: Recorded, initial: Option<IRValueRef>, p: IRPointer| #[trigger]
        spec_takes_slot(s, b, t, initial, p) && after.vars == before.vars.insert(
            hash,
            LocalIRVariable { ptr: p, depth: before.depth as i64 },
        ) && spec_initial(env, before.vars, a, s, value, t, initial);
    lemma_initial(env, before.vars, a, s, value, t, initial);
    lemma_takes_slot(s, b, t, initial, p);
}

pub proof fn lemma_statement_value(
    env: Env,
    vars: Map<u64, LocalIRVariable>,
    a: Recorded,
    b: Recorded,
    node: ASTTreeNode,
)
    requires
        spec_statement_value(env, vars, a, b, node),
    ensures
        spec_branches(b.trace) == spec_branches(a.trace),
{
    let r = choose|r: IRValueRef| #[trigger] spec_evaluates(env, vars, a, b, node, r);
    lemma_lowers(env, Some(vars), a, b, node, None, false, r);
}

pub proof fn lemma_call_lowers(
    env: Env,
    vars: Map<u64, LocalIRVariable>,
    a: Recorded,
    b: Recorded,
    hash: u64,
    args: Seq<Box<ASTTreeNode>>,
    owner: Option<IRPointer>,
    grab: bool,
    out: Option<IRValueRef>,
)
    requires
        spec_call_lowers(env, vars, a, b, hash, args, owner, grab, out),
    ensures
        spec_branches(b.trace) == spec_branches(a.trace),
{
    let f = spec_callee(env, owner, hash)->Some_0;
    let (s, refs, slot) = choose|s: Recorded, refs: Seq<IRValueRef>, slot: Option<IRPointer>| #[trigger]
        spec_calls(s, b, *f, refs, grab, slot) && out == (match slot {
            Some(p) => Some(IRValueRef { kind: IRValueRefKind::Ptr(p.t, p) }),
            None => None,
        }) && (match owner {
            Some(l) => refs.len() > 0 && spec_points(refs[0], l) && spec_lowers_each(
                env,
                Some(vars),
                a,
                s,
                args,
                false,
                refs.subrange(1, refs.len() as int),
            ),
            None => spec_lowers_each(env, Some(vars), a, s, args, false, refs),
        });
    assert(spec_branches(b.trace) == spec_branches(s.trace)) by {
        lemma_calls(s, b, *f, refs, grab, slot);
    }
    if owner is Some {
        lemma_lowers_each(env, Some(vars), a, s, args, false, refs.subrange(1, refs.len() as int));
    } else {
        lemma_lowers_each(env, Some(vars), a, s, args, false, refs);
    }
}

pub proof fn lemma_returns(
    env: Env,
    vars: Map<u64, LocalIRVariable>,
    a: Recorded,
    b: Recorded,
    val: Option<Box<ASTTreeNode>>,
)
    requires
        spec_returns(env, vars, a, b, val),
    ensures
        spec_branches(b.trace) == spec_branches(a.trace),
{
    if val is Some {
        let v = val->Some_0;
        let (s, m, r, x) = choose|s: Recorded, m: Recorded, r: IRValueRef, x: IRNewValue| #[trigger]
            spec_obtains(s, m, r, x) && spec_lowers(env, Some(vars), a, s, *v, None, false, r)
                && spec_step(m, b, Instr::Return { value: Some(x.value) });
        lemma_lowers(env, Some(vars), a, s, *v, None, false, r);
        lemma_obtains(s, m, r, x);
        lemma_quiet(m, b);
    } else {
        lemma_quiet(a, b);
    }
}

pub proof fn lemma_tested(
    env: Env,
    vars: Map<u64, LocalIRVariable>,
    a: Recorded,
    b: Recorded,
    cond: ASTTreeNode,
    flag: ValueHandle,
)
    requires
        spec_tested(env, vars, a, b, cond, flag),
    ensures
        spec_branches(b.trace) == spec_branches(a.trace),
{
    let (s, r, x) = choose|s: Recorded, r: IRValueRef, x: IRNewValue| #[trigger]
        spec_obtains(s, b, r, x) && spec_lowers(env, Some(vars), a, s, cond, None, false, r)
            && *x.t is Bool && flag == x.value;
    lemma_lowers(env, Some(vars), a, s, cond, None, false, r);
    lemma_obtains(s, b, r, x);
}

pub proof fn lemma_branched(
    a: Recorded,
    b: Recorded,
    flag: ValueHandle,
    then_block: crate::ir::backend::BlockHandle,
    else_block: crate::ir::backend::BlockHandle,
)
    requires
        spec_branched(a, b, flag, then_block, else_block),
    ensures
        spec_branches(b.trace) == spec_branches(a.trace) + 1,
{
    let s = choose|s: Recorded| #[trigger]
        spec_step(a, s, Instr::ConditionalBranch { cond: flag, then_block, else_block })
            && spec_step(s, b, Instr::Position { block: then_block });
    lemma_step(a, s, Instr::ConditionalBranch { cond: flag, then_block, else_block });
    lemma_quiet(s, b);
}

pub proof fn lemma_jumped(
    a: Recorded,
    b: Recorded,
    target: crate::ir::backend::BlockHandle,
    next: crate::ir::backend::BlockHandle,
)
    requires
        spec_jumped(a, b, target, next),
    ensures
        spec_branches(b.trace) == spec_branches(a.trace),
{
    let s = choose|s: Recorded| #[trigger]
        spec_step(a, s, Instr::Branch { target }) && spec_step(
            s,
            b,
            Instr::Position { block: next },
        );
    lemma_quiet(a, s);
    lemma_quiet(s, b);
}

pub proof fn lemma_appended(a: Recorded, b: Recorded, func: FunctionHandle, count: nat)
    requires
        spec_appended(a, b, func, count),
    ensures
        spec_branches(b.trace) == spec_branches(a.trace),
{
    let blocks = Seq::new(
        count,
        |k: int|
            Instr::Block {
                func,
                dest: crate::ir::backend::BlockHandle { index: (a.issued.blocks + k) as usize },
            },
    );
    lemma_branches_none(blocks);
    lemma_branches_add(a.trace, blocks);
}

pub proof fn lemma_members(
    env: Env,
    func: FunctionHandle,
    a: Recorded,
    b: Recorded,
    before: Scope,
    after: Scope,
    body: Seq<Box<ASTTreeNode>>,
)
    requires
        spec_members_lower(env, func, a, b, before, after, body),
    ensures
        spec_branches(b.trace) == spec_branches(a.trace) + spec_conditions_each(body),
    decreases body, 0nat,
{
    if body.len() > 0 {
        let (s, mid) = choose|s: Recorded, mid: Scope|
            #![trigger spec_reached(a, s), spec_grown(mid, before)]
            spec_reached(a, s) && spec_grown(mid, before) && spec_member_lowers(
                env,
                func,
                a,
                s,
                before,
                mid,
                *body[0],
            ) && spec_members_lower(
                env,
                func,
                s,
                b,
                mid,
                after,
                body.subrange(1, body.len() as int),
            );
        law_branches_of_a_member(env, func, a, s, before, mid, *body[0]);
        lemma_members(env, func, s, b, mid, after, body.subrange(1, body.len() as int));
    }
}

pub proof fn lemma_nested(
    env: Env,
    func: FunctionHandle,
    a: Recorded,
    b: Recorded,
    scope: Scope,
    body: Seq<Box<ASTTreeNode>>,
    exit: crate::ir::backend::BlockHandle,
)
    requires
        spec_nested_lowers(env, func, a, b, scope, body, exit),
    ensures
        spec_branches(b.trace) == spec_branches(a.trace) + spec_conditions_each(body),
    decreases body, 1nat,
{
    let (s, inner) = choose|s: Recorded, inner: Scope|
        #![trigger spec_step(s, b, Instr::Branch { target: exit }), spec_grown(inner, spec_deeper(scope))]
        spec_members_lower(env, func, a, s, spec_deeper(scope), inner, body) && spec_grown(
            inner,
            spec_deeper(scope),
        ) && spec_step(s, b, Instr::Branch { target: exit });
    lemma_members(env, func, a, s, spec_deeper(scope), inner, body);
    lemma_quiet(s, b);
}

pub proof fn lemma_rest(
    env: Env,
    func: FunctionHandle,
    plan: CascadePlan,
    i: int,
    a: Recorded,
    b: Recorded,
    scope: Scope,
    else_statement: Option<Box<ASTTreeNode>>,
)
    requires
        spec_rest_lowers(env, func, plan, i, a, b, scope, else_statement),
    ensures
        spec_branches(b.trace) == spec_branches(a.trace) + match else_statement {
            Some(e) => spec_conditions(*e),
            None => 0,
        },
    decreases else_statement, 1nat,
{
    match else_statement {
        None => {},
        Some(n) => {
            let s = choose|s: Recorded| #[trigger]
                spec_step(a, s, Instr::Position { block: plan.spec_else_target(i) }) && match *n {
                    ASTTreeNode::IfElseStatement { cond: Some(_), .. } => spec_chain_lowers(
                        env,
                        func,
                        plan,
                        i + 1,
                        s,
                        b,
                        scope,
                        *n,
                    ),
                    ASTTreeNode::IfElseStatement { cond: None, body, .. } => spec_nested_lowers(
                        env,
                        func,
                        s,
                        b,
                        scope,
                        body@,
                        plan.spec_exit(),
                    ),
                    ASTTreeNode::ElseStatement { body } => spec_nested_lowers(
                        env,
                        func,
                        s,
                        b,
                        scope,
                        body@,
                        plan.spec_exit(),
                    ),
                    _ => false,
                };
            lemma_quiet(a, s);
            match *n {
                ASTTreeNode::IfElseStatement { cond: Some(_), .. } => {
                    lemma_chain(env, func, plan, i + 1, s, b, scope, *n);
                },
                ASTTreeNode::IfElseStatement { cond: None, body, .. } => {
                    lemma_nested(env, func, s, b, scope, body@, plan.spec_exit());
                },
                ASTTreeNode::ElseStatement { body } => {
                    lemma_nested(env, func, s, b, scope, body@, plan.spec_exit());
                },
                _ => {},
            }
        },
    }
}

pub proof fn lemma_chain(
    env: Env,
    func: FunctionHandle,
    plan: CascadePlan,
    i: int,
    a: Recorded,
    b: Recorded,
    scope: Scope,
    node: ASTTreeNode,
)
    requires
        spec_chain_lowers(env, func, plan, i, a, b, scope, node),
    ensures
        spec_branches(b.trace) == spec_branches(a.trace) + spec_conditions(node),
    decreases node, 0nat,
{
    match node {
        ASTTreeNode::IfStatement { cond, body, else_statement, depth: _ } => {
            let (s1, s2, s3, flag) = choose|
                s1: Recorded,
                s2: Recorded,
                s3: Recorded,
                flag: ValueHandle,
            |
                #![trigger spec_branched(s1, s2, flag, plan.spec_then_block(i), plan.spec_else_target(i)), spec_reached(s2, s3)]
                spec_tested(env, scope.vars, a, s1, *cond, flag) && spec_branched(
                    s1,
                    s2,
                    flag,
                    plan.spec_then_block(i),
                    plan.spec_else_target(i),
                ) && spec_reached(s2, s3) && spec_nested_lowers(
                    env,
                    func,
                    s2,
                    s3,
                    scope,
                    body@,
                    plan.spec_exit(),
                ) && spec_rest_lowers(env, func, plan, i, s3, b, scope, else_statement);
            lemma_tested(env, scope.vars, a, s1, *cond, flag);
            lemma_branched(s1, s2, flag, plan.spec_then_block(i), plan.spec_else_target(i));
            lemma_nested(env, func, s2, s3, scope, body@, plan.spec_exit());
            lemma_rest(env, func, plan, i, s3, b, scope, else_statement);
        },
        ASTTreeNode::IfElseStatement { cond: Some(cond), body, else_statement } => {
            let (s1, s2, s3, flag) = choose|
                s1: Recorded,
                s2: Recorded,
                s3: Recorded,
                flag: ValueHandle,
            |
                #![trigger spec_branched(s1, s2, flag, plan.spec_then_block(i), plan.spec_else_target(i)), spec_reached(s2, s3)]
                spec_tested(env, scope.vars, a, s1, *cond, flag) && spec_branched(
                    s1,
                    s2,
                    flag,
                    plan.spec_then_block(i),
                    plan.spec_else_target(i),
                ) && spec_reached(s2, s3) && spec_nested_lowers(
                    env,
                    func,
                    s2,
                    s3,
                    scope,
                    body@,
                    plan.spec_exit(),
                ) && spec_rest_lowers(env, func, plan, i, s3, b, scope, else_statement);
            lemma_tested(env, scope.vars, a, s1, *cond, flag);
            lemma_branched(s1, s2, flag, plan.spec_then_block(i), plan.spec_else_target(i));
            lemma_nested(env, func, s2, s3, scope, body@, plan.spec_exit());
            lemma_rest(env, func, plan, i, s3, b, scope, else_statement);
        },
        _ => {},
    }
}

pub proof fn lemma_if(
    env: Env,
    func: FunctionHandle,
    a: Recorded,
    b: Recorded,
    scope: Scope,
    node: ASTTreeNode,
)
    requires
        spec_if_lowers(env, func, a, b, scope, node),
    ensures
        spec_branches(b.trace) == spec_branches(a.trace) + spec_conditions(node),
    decreases node, 1nat,
{
    let plan = CascadePlan {
        first: a.issued.blocks as usize,
        conditions: crate::ir::conv::control::spec_chain_conditions(node) as usize,
        has_else: crate::ir::conv::control::spec_chain_has_else(node),
    };
    let (s0, s1) = choose|s0: Recorded, s1: Recorded|
        #![trigger spec_appended(a, s0, func, plan.spec_block_count()), spec_step(s1, b, Instr::Position { block: plan.spec_exit() })]
        spec_appended(a, s0, func, plan.spec_block_count()) && spec_chain_lowers(
            env,
            func,
            plan,
            0,
            s0,
            s1,
            scope,
            node,
        ) && spec_step(s1, b, Instr::Position { block: plan.spec_exit() });
    lemma_appended(a, s0, func, plan.spec_block_count());
    lemma_chain(env, func, plan, 0, s0, s1, scope, node);
    lemma_quiet(s1, b);
}

pub proof fn lemma_for(
    env: Env,
    func: FunctionHandle,
    a: Recorded,
    b: Recorded,
    before: Scope,
    after: Scope,
    node: ASTTreeNode,
)
    requires
        spec_for_lowers(env, func, a, b, before, after, node),
    ensures
        spec_branches(b.trace) == spec_branches(a.trace) + spec_conditions(node),
    decreases node, 1nat,
{
    let test = crate::ir::backend::BlockHandle { index: a.issued.blocks as usize };
    let inside = crate::ir::backend::BlockHandle { index: (a.issued.blocks + 1) as usize };
    let past = crate::ir::backend::BlockHandle { index: (a.issued.blocks + 2) as usize };
    match node {
        ASTTreeNode::ForBlock { initial_state, cond, increment, body } => {
            let (s0, s1, s2, s3, s4, s5, s6, flag, inner, stepped) = choose|
                s0: Recorded,
                s1: Recorded,
                s2: Recorded,
                s3: Recorded,
                s4: Recorded,
                s5: Recorded,
                s6: Recorded,
                flag: ValueHandle,
                inner: Scope,
                stepped: Scope,
            |
                #![trigger spec_appended(a, s0, func, 3), spec_jumped(s1, s2, test, test), spec_branched(s3, s4, flag, inside, past), spec_reached(s4, s5), spec_grown(stepped, inner), spec_jumped(s6, b, test, past)]
                spec_appended(a, s0, func, 3) && spec_member_lowers(
                    env,
                    func,
                    s0,
                    s1,
                    before,
                    after,
                    *initial_state,
                ) && spec_grown(after, before) && spec_jumped(s1, s2, test, test) && spec_tested(
                    env,
                    after.vars,
                    s2,
                    s3,
                    *cond,
                    flag,
                ) && spec_branched(s3, s4, flag, inside, past) && spec_reached(s4, s5)
                    && spec_members_lower(env, func, s4, s5, spec_deeper(after), inner, body@)
                    && spec_grown(inner, spec_deeper(after)) && spec_member_lowers(
                    env,
                    func,
                    s5,
                    s6,
                    inner,
                    stepped,
                    *increment,
                ) && spec_grown(stepped, inner) && spec_jumped(s6, b, test, past);
            lemma_appended(a, s0, func, 3);
            law_branches_of_a_member(env, func, s0, s1, before, after, *initial_state);
            lemma_jumped(s1, s2, test, test);
            lemma_tested(env, after.vars, s2, s3, *cond, flag);
            lemma_branched(s3, s4, flag, inside, past);
            lemma_members(env, func, s4, s5, spec_deeper(after), inner, body@);
            law_branches_of_a_member(env, func, s5, s6, inner, stepped, *increment);
            lemma_jumped(s6, b, test, past);
        },
        _ => {},
    }
}

/// Lowering a member of a body builds exactly as many two-way branches as
/// the member tests conditions: none for a declaration, a value, a call or a
/// return, one for each condition of an `if` with its `else if`s, one for a
/// `for`, and what the members of their bodies build.
pub proof fn law_branches_of_a_member(
    env: Env,
    func: FunctionHandle,
    a: Recorded,
    b: Recorded,
    before: Scope,
    after: Scope,
    node: ASTTreeNode,
)
    requires
        spec_member_lowers(env, func, a, b, before, after, node),
    ensures
        spec_branches(b.trace) == spec_branches(a.trace) + spec_conditions(node),
    decreases node, 3nat,
{
    match node {
        ASTTreeNode::VarDeclaration { var_name, var_type, value } => {
            lemma_declares(env, a, b, before, after, var_name.hash, var_type, value);
        },
        ASTTreeNode::MathResult { .. } => {
            lemma_statement_value(env, before.vars, a, b, node);
        },
        ASTTreeNode::StructLRFunction { .. } => {
            lemma_statement_value(env, before.vars, a, b, node);
        },
        ASTTreeNode::StructLRVariable { .. } => {
            lemma_statement_value(env, before.vars, a, b, node);
        },
        ASTTreeNode::FunctionCall { func: name, args } => {
            lemma_call_lowers(env, before.vars, a, b, name.hash, args@, None, false, None);
        },
        ASTTreeNode::ReturnStatement { val } => {
            lemma_returns(env, before.vars, a, b, val);
        },
        ASTTreeNode::IfStatement { .. } => {
            lemma_if(env, func, a, b, before, node);
        },
        ASTTreeNode::ForBlock { .. } => {
            lemma_for(env, func, a, b, before, after, node);
        },
        _ => {},
    }
}

} // verus!

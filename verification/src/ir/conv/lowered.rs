//! What lowering a value builds and yields, by the kind of its node.
//!
//! The relation of this module says of a node, of the state of the backend's
//! record before it is lowered and of the state after, that the later state is
//! the earlier one with exactly what the rule for the node builds, and that
//! the value reference is what the rule yields.

use vstd::prelude::*;
use std::rc::Rc;
use crate::commons::utils::map::spec_get;
use crate::ir::backend::{Instr, ValueHandle};
use crate::ir::ctx::{IRContext, LocalIRVariable};
use crate::ir::irstruct::funcs::IRFunction;
use crate::ir::irstruct::ptr::IRPointer;
use crate::ir::math::spec_math_op;
use crate::ir::refs::{IRValueRef, IRValueRefKind};
use crate::ir::rules::{Recorded, spec_calls, spec_coerces, spec_compares, spec_negates, spec_obtains, spec_reached, spec_step};
use crate::ir::types::typing::{IRType, spec_base_type, spec_is_numeric, spec_is_signed};
use crate::ir::types::{POINTER_TYPE_HASH, SIGNED64_TYPE_HASH};
use crate::ir::values::IRNewValue;
use crate::lexer::toks::math::MathOperator;
use crate::parser::ast::tree::ASTTreeNode;

verus! {

/// What lowering reads of the global context: the registry of types, the
/// functions and the static variables of the module.
pub struct Env {
    pub types: Map<u64, Rc<IRType>>,
    pub functions: Map<u64, Rc<IRFunction>>,
    pub static_vars: Map<u64, Rc<crate::ir::irstruct::staticvars::IRStaticVariable>>,
}

/// What lowering reads of a global context.
pub open spec fn spec_env(ctx: IRContext) -> Env {
    Env {
        types: ctx.type_storage.map@,
        functions: ctx.functions@,
        static_vars: ctx.static_vars@,
    }
}

/// Whether a value reference is the stack location `p`.
pub open spec fn spec_points(r: IRValueRef, p: IRPointer) -> bool {
    r.kind matches IRValueRefKind::Ptr(_, q) && q.t == p.t && q.ptr == p.ptr
}

/// The function that a call names: a function of the module, or, with a
/// receiver, a member function of the receiver's type, which must be a struct.
pub open spec fn spec_callee(ctx: Env, left: Option<IRPointer>, hash: u64) -> Option<
    Rc<IRFunction>,
> {
    match left {
        None => spec_get(ctx.functions, hash),
        Some(l) => match *l.t {
            IRType::Struct(d) => if d.is_layout {
                None
            } else {
                spec_get(d.functions@, hash)
            },
            IRType::Layout(d) => if d.is_layout {
                None
            } else {
                spec_get(d.functions@, hash)
            },
            _ => None,
        },
    }
}

/// What a variable resolves to: a field of the instance `left`, by the index
/// that the field map of its type holds for the hash, or, without an
/// instance, a static variable of the module or a variable of the body.
pub open spec fn spec_resolves(
    ctx: Env,
    vars: Option<Map<u64, LocalIRVariable>>,
    a: Recorded,
    b: Recorded,
    hash: u64,
    left: Option<IRPointer>,
    r: IRValueRef,
) -> bool {
    match left {
        Some(l) => (*l.t is Struct || *l.t is Layout) && {
            let d = if *l.t is Struct {
                l.t->Struct_0
            } else {
                l.t->Layout_0
            };
            match spec_get(d.field_to_index@, hash) {
                Some(k) => k < d.field_types@.len() && (r.kind matches IRValueRefKind::Ptr(t, p)
                    && t == d.field_types@[k as int] && p.t == t && spec_step(
                    a,
                    b,
                    Instr::FieldPointer { ptr: l.ptr, index: k, dest: p.ptr },
                )),
                None => false,
            }
        },
        None => b == a && match spec_get(ctx.static_vars, hash) {
            Some(v) => r.kind == IRValueRefKind::Global(v.t, v),
            None => match vars {
                Some(l) => match spec_get(l, hash) {
                    Some(local) => spec_points(r, local.ptr),
                    None => false,
                },
                None => false,
            },
        },
    }
}

/// Arithmetic on two lowered operands: both are materialized, the right one is
/// brought to the type of the left one, which must be an integer type, and the
/// operation is built; the assigning form stores the result to the left
/// operand, which must be a stack location.
pub open spec fn spec_math_built(
    a: Recorded,
    b: Recorded,
    x: IRValueRef,
    y: IRValueRef,
    operator: MathOperator,
    assigns: bool,
    r: IRValueRef,
) -> bool {
    x.spec_type() matches Some(t) && spec_is_numeric(*t) && exists|s1: Recorded, left: IRNewValue| #[trigger]
        spec_obtains(a, s1, x, left) && exists|s2: Recorded, right: IRNewValue| #[trigger]
            spec_obtains(s1, s2, y, right) && exists|s3: Recorded, fitted: ValueHandle| #[trigger]
                spec_coerces(s2, s3, right, *t, fitted) && exists|s4: Recorded, out: ValueHandle| #[trigger]
                    spec_step(
                        s3,
                        s4,
                        Instr::Binary {
                            op: spec_math_op(operator),
                            lhs: left.value,
                            rhs: fitted,
                            dest: out,
                        },
                    ) && r.kind == IRValueRefKind::Val(IRNewValue { value: out, t }) && (
                    if assigns {
                        x.kind matches IRValueRefKind::Ptr(_, p) && spec_step(
                            s4,
                            b,
                            Instr::Store { ptr: p.ptr, value: out },
                        )
                    } else {
                        b == s4
                    })
}

/// Lowering a list of nodes as values, in order.
pub open spec fn spec_lowers_each(
    ctx: Env,
    vars: Option<Map<u64, LocalIRVariable>>,
    a: Recorded,
    b: Recorded,
    nodes: Seq<Box<ASTTreeNode>>,
    in_decl: bool,
    refs: Seq<IRValueRef>,
) -> bool
    decreases nodes, 0nat,
{
    if nodes.len() == 0 {
        b == a && refs.len() == 0
    } else {
        refs.len() == nodes.len() && exists|s: Recorded| #[trigger]
            spec_reached(a, s) && spec_lowers(ctx, vars, a, s, *nodes[0], None, in_decl, refs[0])
                && spec_lowers_each(
                ctx,
                vars,
                s,
                b,
                nodes.subrange(1, nodes.len() as int),
                in_decl,
                refs.subrange(1, refs.len() as int),
            )
    }
}

/// Lowering a node that stands for a value.
///
/// An integer literal is a constant of the 64-bit signed type. A string
/// literal stays text inside a variable declaration and becomes a constant
/// global elsewhere. A variable resolves; a call lowers its arguments, with
/// the receiver first if there is one, and yields the slot of its result.
/// Arithmetic and comparison lower both sides and build their operation, a
/// negation lowers its operand and flips it. A dot access lowers its left side
/// to a stack location and its right side in that location.
pub open spec fn spec_lowers(
    ctx: Env,
    vars: Option<Map<u64, LocalIRVariable>>,
    a: Recorded,
    b: Recorded,
    node: ASTTreeNode,
    left: Option<IRPointer>,
    in_decl: bool,
    r: IRValueRef,
) -> bool
    decreases node, 1nat,
{
    match node {
        ASTTreeNode::IntegerLit(v) => match spec_get(ctx.types, SIGNED64_TYPE_HASH) {
            Some(t) => spec_is_signed(*t) && (r.kind matches IRValueRefKind::Val(x) && x.t == t
                && spec_step(
                a,
                b,
                Instr::ConstSigned { ty: spec_base_type(*t), value: v as i128, dest: x.value },
            )),
            None => false,
        },
        ASTTreeNode::StringLit(s) => match spec_get(ctx.types, POINTER_TYPE_HASH) {
            Some(t) => match r.kind {
                IRValueRefKind::TempString(x) => in_decl && x@ == s@ && b == a,
                IRValueRefKind::Global(gt, g) => !in_decl && gt == t && g.t == t && g.content
                    is Text && spec_step(
                    a,
                    b,
                    Instr::GlobalString {
                        len: vstd::utf8::encode_utf8(s@).len() as usize,
                        dest: g.content->Text_0,
                    },
                ),
                _ => false,
            },
            None => false,
        },
        ASTTreeNode::VariableReference(e) => spec_resolves(ctx, vars, a, b, e.hash, left, r),
        ASTTreeNode::FunctionCall { func, args } => match spec_callee(ctx, left, func.hash) {
            Some(f) => exists|s: Recorded, refs: Seq<IRValueRef>, out: IRPointer| #[trigger]
                spec_calls(s, b, *f, refs, true, Some(out)) && r.kind == IRValueRefKind::Ptr(
                    out.t,
                    out,
                ) && (match left {
                    Some(l) => refs.len() > 0 && spec_points(refs[0], l) && spec_lowers_each(
                        ctx,
                        vars,
                        a,
                        s,
                        args@,
                        in_decl,
                        refs.subrange(1, refs.len() as int),
                    ),
                    None => spec_lowers_each(ctx, vars, a, s, args@, in_decl, refs),
                }),
            None => false,
        },
        ASTTreeNode::MathResult { lval, rval, operator, assigns } => exists|
            s1: Recorded,
            s2: Recorded,
            x: IRValueRef,
            y: IRValueRef,
        |
            #![trigger spec_reached(a, s1), spec_math_built(s2, b, x, y, operator, assigns, r)]
            spec_reached(a, s1) && spec_lowers(ctx, vars, a, s1, *lval, None, in_decl, x)
                && spec_lowers(ctx, vars, s1, s2, *rval, None, in_decl, y) && spec_math_built(
                s2,
                b,
                x,
                y,
                operator,
                assigns,
                r,
            ),
        ASTTreeNode::OperatorBasedConditionMember { lval, rval, operator } => exists|
            s1: Recorded,
            s2: Recorded,
            x: IRValueRef,
            y: IRValueRef,
            out: IRNewValue,
        |
            #![trigger spec_reached(a, s1), spec_compares(ctx.types, s2, b, x, y, operator, out)]
            spec_reached(a, s1) && spec_lowers(ctx, vars, a, s1, *lval, None, in_decl, x)
                && spec_lowers(ctx, vars, s1, s2, *rval, None, in_decl, y) && spec_compares(
                ctx.types,
                s2,
                b,
                x,
                y,
                operator,
                out,
            ) && r.kind == IRValueRefKind::Val(out),
        ASTTreeNode::BooleanBasedConditionMember { val, negate } => if negate {
            exists|s: Recorded, x: IRValueRef, out: IRNewValue| #[trigger]
                spec_negates(ctx.types, s, b, x, out) && spec_lowers(
                    ctx,
                    vars,
                    a,
                    s,
                    *val,
                    None,
                    in_decl,
                    x,
                ) && r.kind == IRValueRefKind::Val(out)
        } else {
            spec_lowers(ctx, vars, a, b, *val, None, in_decl, r)
        },
        ASTTreeNode::StructLRFunction { l, r: right } => exists|
            s: Recorded,
            x: IRValueRef,
            p: IRPointer,
        |
            #![trigger spec_reached(a, s), spec_points(x, p)]
            spec_reached(a, s) && spec_points(x, p) && spec_lowers(
                ctx,
                vars,
                a,
                s,
                *l,
                left,
                in_decl,
                x,
            ) && spec_lowers(ctx, vars, s, b, *right, Some(p), in_decl, r),
        ASTTreeNode::StructLRVariable { l, r: right } => exists|
            s: Recorded,
            x: IRValueRef,
            p: IRPointer,
        |
            #![trigger spec_reached(a, s), spec_points(x, p)]
            spec_reached(a, s) && spec_points(x, p) && spec_lowers(
                ctx,
                vars,
                a,
                s,
                *l,
                left,
                in_decl,
                x,
            ) && spec_lowers(ctx, vars, s, b, *right, Some(p), in_decl, r),
        _ => false,
    }
}

} // verus!

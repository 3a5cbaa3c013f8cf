//! Lowering of the nodes that stand for a value.

use vstd::prelude::*;
use std::rc::Rc;
use crate::commons::err::{PositionlessError, PositionlessResult, fails_with};
use crate::commons::utils::map::spec_get;
use crate::errors::errors::{INKWELL_FUNC_FAILED, IR_ASSIGN_NOVAR, IR_FIELD, IR_FIELD_INDEX, IR_FIND_PRIMITIVE_TYPE, IR_FIND_VARIABLE, IR_FUNC_VOID_VALUE, IR_INVALID_MATH_VAL, IR_NO_DESCRIPTOR, IR_TYPE_SIGNED, IR_VALUE_NODE};
use crate::ir::backend::Instr;
use crate::ir::bools::{make_bool_cmp_int, make_bool_xor};
use crate::ir::conv::lowered::{spec_callee, spec_env, spec_lowers, spec_lowers_each, spec_math_built, spec_points, spec_resolves};
use crate::ir::ctx::{IRContext, IRLocalContext, LocalIRVariable};
use crate::ir::irstruct::funcs::IRFunction;
use crate::ir::rules::{Recorded, spec_calls, spec_coerces, spec_compares, spec_negates, spec_obtains, spec_reached, spec_recorded, spec_step};
use crate::ir::types::typing::spec_is_signed;
use crate::lexer::toks::math::MathOperator;
use crate::ir::irstruct::ptr::IRPointer;
use crate::ir::irstruct::staticvars::IRStaticVariable;
use crate::ir::math::{make_math_operation, spec_math_op};
use crate::ir::refs::{IRValueRef, IRValueRefKind};
use crate::ir::types::typing::{spec_base_type, spec_is_numeric};
use crate::ir::types::{POINTER_TYPE_HASH, SIGNED64_TYPE_HASH};
use crate::ir::utils::widen;
use crate::ir::values::IRNewValue;
use crate::ir::types::typing::lemma_same_type_reflexive;
use crate::ir::utils::backend_failed;
use crate::ir::verdict::{spec_callee_verdict, spec_judged, spec_judged_each, spec_left_type, spec_math_refusal, spec_refused, spec_settled, spec_shape_of, spec_static_opt, spec_shapes_of, spec_value_verdict, spec_values_verdict, spec_variable_verdict, spec_verdicts_extend};
use crate::parser::ast::tree::ASTTreeNode;

verus! {

/// The variable that a hash names: a static variable of the module if there is
/// one under the hash, a variable of the function body otherwise.
pub open spec fn spec_variable_ref(
    lctx: Option<Map<u64, LocalIRVariable>>,
    ctx: IRContext,
    hash: u64,
    r: PositionlessResult<IRValueRef>,
) -> bool {
    match spec_get(ctx.static_vars@, hash) {
        Some(v) => r is Ok && r->Ok_0.kind == IRValueRefKind::Global(v.t, v),
        None => match lctx {
            Some(l) => match spec_get(l, hash) {
                Some(local) => r is Ok && match r->Ok_0.kind {
                    IRValueRefKind::Ptr(t, p) => t == local.ptr.t && p.ptr == local.ptr.ptr && p.t
                        == local.ptr.t,
                    _ => false,
                },
                None => fails_with(r, IR_FIND_VARIABLE),
            },
            None => fails_with(r, IR_FIND_VARIABLE),
        },
    }
}

/// Resolves a variable by the hash of its name.
pub fn get_variable_ref<'ctx>(lctx: &IRLocalContext, ctx: &IRContext<'ctx>, hash: u64) -> (r:
    PositionlessResult<IRValueRef>)
    ensures
        spec_variable_ref(Some(lctx.vars@), *ctx, hash, r),
{
    match ctx.get_variable(hash) {
        Ok(v) => {
            return Ok(IRValueRef::from_static(v));
        },
        Err(_) => {},
    }
    match lctx.get_variable(hash) {
        Ok(v) => Ok(IRValueRef::from_pointer(v.duplicate())),
        Err(_) => Err(PositionlessError::with_message(IR_FIND_VARIABLE)),
    }
}

/// Whether a node stands for a value.
pub open spec fn spec_is_value_node(node: ASTTreeNode) -> bool {
    node is IntegerLit || node is StringLit || node is VariableReference || node is FunctionCall
        || node is MathResult || node is OperatorBasedConditionMember
        || node is BooleanBasedConditionMember || node is StructLRFunction
        || node is StructLRVariable
}

/// What lowering an integer literal yields: a constant of the 64-bit signed
/// type.
pub open spec fn spec_integer_literal(
    before: IRContext,
    after: IRContext,
    v: i64,
    r: PositionlessResult<IRValueRef>,
) -> bool {
    match spec_get(before.type_storage.map@, SIGNED64_TYPE_HASH) {
        None => fails_with(r, IR_FIND_PRIMITIVE_TYPE) && after.backend.idle(&before.backend),
        Some(t) => if !spec_is_signed(*t) {
            fails_with(r, IR_TYPE_SIGNED) && after.backend.idle(&before.backend)
        } else {
            match r {
                Ok(val) => match val.kind {
                    IRValueRefKind::Val(x) => x.t == t && after.backend.built(
                        &before.backend,
                        Instr::ConstSigned {
                            ty: spec_base_type(*t),
                            value: v as i128,
                            dest: x.value,
                        },
                    ),
                    _ => false,
                },
                Err(_) => backend_failed(r) && after.backend.idle(&before.backend),
            }
        },
    }
}

/// What lowering a string literal yields. Inside a variable declaration the
/// text is handed on as it is, for the declaration to decide how to hold it;
/// elsewhere it becomes a constant global at once.
pub open spec fn spec_string_literal(
    before: IRContext,
    after: IRContext,
    text: String,
    in_var_decl: bool,
    r: PositionlessResult<IRValueRef>,
) -> bool {
    match spec_get(before.type_storage.map@, POINTER_TYPE_HASH) {
        None => fails_with(r, IR_FIND_PRIMITIVE_TYPE) && after.backend.idle(&before.backend),
        Some(t) => r is Ok && match r->Ok_0.kind {
            IRValueRefKind::TempString(s) => in_var_decl && s@ == text@ && after.backend.idle(
                &before.backend,
            ),
            IRValueRefKind::Global(gt, g) => !in_var_decl && gt == t && g.t == t && g.content
                is Text && after.backend.built(
                &before.backend,
                Instr::GlobalString {
                    len: vstd::utf8::encode_utf8(text@).len() as usize,
                    dest: g.content->Text_0,
                },
            ),
            _ => false,
        },
    }
}

/// What resolving a field of the aggregate behind `left` yields: a pointer to
/// the field at the index that the descriptor holds for the hash, of the
/// field's type.
pub open spec fn spec_field_access(
    before: IRContext,
    after: IRContext,
    left: IRPointer,
    hash: u64,
    r: PositionlessResult<IRValueRef>,
) -> bool {
    if !(*left.t is Struct || *left.t is Layout) {
        fails_with(r, IR_NO_DESCRIPTOR) && after.backend.idle(&before.backend)
    } else {
        let d = if *left.t is Struct {
            left.t->Struct_0
        } else {
            left.t->Layout_0
        };
        match spec_get(d.field_to_index@, hash) {
            None => fails_with(r, IR_FIELD) && after.backend.idle(&before.backend),
            Some(k) => if k >= d.field_types@.len() {
                fails_with(r, IR_FIELD_INDEX) && after.backend.idle(&before.backend)
            } else {
                match r {
                    Ok(val) => match val.kind {
                        IRValueRefKind::Ptr(t, p) => t == d.field_types@[k as int] && p.t == t
                            && after.backend.built(
                            &before.backend,
                            Instr::FieldPointer { ptr: left.ptr, index: k, dest: p.ptr },
                        ),
                        _ => false,
                    },
                    Err(_) => backend_failed(r) && after.backend.idle(&before.backend),
                }
            },
        }
    }
}

/// The variables of the local context behind an optional reference to one.
pub open spec fn spec_vars(lctx: Option<&IRLocalContext>) -> Option<Map<u64, LocalIRVariable>> {
    match lctx {
        Some(l) => Some(l.vars@),
        None => None,
    }
}

/// Lowers each node of a list as a value, in order. `first`, where there is
/// one, stands before what the nodes yield.
pub fn parse_ir_values<'ctx>(
    lctx: Option<&IRLocalContext>,
    ctx: &mut IRContext<'ctx>,
    nodes: &Vec<Box<ASTTreeNode>>,
    first: Option<IRValueRef>,
    in_var_decl: bool,
) -> (r: PositionlessResult<Vec<IRValueRef>>)
    ensures
        final(ctx).only_built(old(ctx)),
        r matches Ok(v) ==> match first {
            Some(f) => v@.len() == nodes@.len() + 1 && v@[0] == f && spec_lowers_each(
                spec_env(*old(ctx)),
                spec_vars(lctx),
                spec_recorded(old(ctx).backend),
                spec_recorded(final(ctx).backend),
                nodes@,
                in_var_decl,
                v@.subrange(1, v@.len() as int),
            ),
            None => v@.len() == nodes@.len() && spec_lowers_each(
                spec_env(*old(ctx)),
                spec_vars(lctx),
                spec_recorded(old(ctx).backend),
                spec_recorded(final(ctx).backend),
                nodes@,
                in_var_decl,
                v@,
            ),
        },
        spec_judged_each(
            r,
            match first {
                Some(f) => seq![spec_shape_of(f)],
                None => Seq::empty(),
            },
            spec_values_verdict(
                spec_env(*old(ctx)),
                spec_static_opt(spec_vars(lctx)),
                nodes@,
                in_var_decl,
            ),
        ),
        nodes@.len() == 0 ==> r is Ok && *final(ctx) == *old(ctx),
        nodes@.len() > 0 && !spec_is_value_node(*nodes@[0]) ==> fails_with(r, IR_VALUE_NODE)
            && final(ctx).backend.idle(&old(ctx).backend),
        nodes@.len() > 0 && (*nodes@[0] matches ASTTreeNode::VariableReference(e)
            && !old(ctx).static_vars@.contains_key(e.hash) && !(spec_vars(lctx) matches Some(l)
            && l.contains_key(e.hash))) ==> fails_with(r, IR_FIND_VARIABLE) && final(ctx).backend.idle(&old(ctx).backend),
    decreases nodes, 0nat,
{
    let ghost start = *ctx;
    let ghost env = spec_env(start);
    let ghost vars = spec_vars(lctx);
    let mut out: Vec<IRValueRef> = Vec::new();
    match first {
        Some(f) => {
            out.push(f);
        },
        None => {},
    }
    let ghost head = out@;
    let mut i: usize = 0;
    proof {
        assert(nodes@.subrange(0, nodes@.len() as int) =~= nodes@);
        assert(spec_shapes_of(out@.subrange(head.len() as int, out@.len() as int))
            =~= Seq::<crate::ir::verdict::Shape>::empty());
    }
    proof {
        assert forall|b: Recorded, rest: Seq<IRValueRef>| #[trigger]
            spec_lowers_each(
                env,
                vars,
                spec_recorded(ctx.backend),
                b,
                nodes@.subrange(0, nodes@.len() as int),
                in_var_decl,
                rest,
            ) implies spec_lowers_each(
            env,
            vars,
            spec_recorded(start.backend),
            b,
            nodes@,
            in_var_decl,
            out@.subrange(head.len() as int, out@.len() as int) + rest,
        ) by {
            assert(nodes@.subrange(0, nodes@.len() as int) =~= nodes@);
            assert(out@.subrange(head.len() as int, out@.len() as int) + rest =~= rest);
        }
    }
    while i < nodes.len()
        invariant
            i <= nodes@.len(),
            start == *old(ctx),
            env == spec_env(start),
            vars == spec_vars(lctx),
            ctx.only_built(&start),
            i == 0 ==> *ctx == start,
            spec_verdicts_extend(
                spec_values_verdict(env, spec_static_opt(vars), nodes@, in_var_decl),
                spec_shapes_of(out@.subrange(head.len() as int, out@.len() as int)),
                spec_values_verdict(
                    env,
                    spec_static_opt(vars),
                    nodes@.subrange(i as int, nodes@.len() as int),
                    in_var_decl,
                ),
            ),
            i > 0 ==> spec_is_value_node(*nodes@[0]) && !(*nodes@[0] matches ASTTreeNode::VariableReference(
                e,
            ) && !start.static_vars@.contains_key(e.hash) && !(vars matches Some(l)
                && l.contains_key(e.hash))),
            head.len() == (if first is Some {
                1int
            } else {
                0int
            }),
            out@.len() == i + head.len(),
            out@.subrange(0, head.len() as int) == head,
            first matches Some(f) ==> head[0] == f,
            forall|b: Recorded, rest: Seq<IRValueRef>| #[trigger]
                spec_lowers_each(
                    env,
                    vars,
                    spec_recorded(ctx.backend),
                    b,
                    nodes@.subrange(i as int, nodes@.len() as int),
                    in_var_decl,
                    rest,
                ) ==> spec_lowers_each(
                    env,
                    vars,
                    spec_recorded(start.backend),
                    b,
                    nodes@,
                    in_var_decl,
                    out@.subrange(head.len() as int, out@.len() as int) + rest,
                ),
        decreases nodes@.len() - i,
    {
        let ghost prev = *ctx;
        let ghost before = out@;
        proof {
            let tail = nodes@.subrange(i as int, nodes@.len() as int);
            assert(tail.subrange(1, tail.len() as int) =~= nodes@.subrange(
                i + 1,
                nodes@.len() as int,
            ));
            assert(*tail[0] == *nodes@[i as int]);
            assert(spec_env(prev) == env);
        }
        let got = parse_ir_value(lctx, ctx, &nodes[i], None, in_var_decl);
        let value = got?;
        let ghost lowered = value;
        out.push(value);
        proof {
            assert(spec_shapes_of(out@.subrange(head.len() as int, out@.len() as int))
                =~= spec_shapes_of(before.subrange(head.len() as int, before.len() as int))
                + seq![spec_shape_of(lowered)]);
            assert(spec_env(prev) == env);
            let tail = nodes@.subrange(i as int, nodes@.len() as int);
            assert(tail.subrange(1, tail.len() as int) =~= nodes@.subrange(
                i + 1,
                nodes@.len() as int,
            ));
            assert(*tail[0] == *nodes@[i as int]);
            assert(out@.subrange(0, head.len() as int) =~= before.subrange(0, head.len() as int));
            assert forall|b: Recorded, rest: Seq<IRValueRef>| #[trigger]
                spec_lowers_each(
                    env,
                    vars,
                    spec_recorded(ctx.backend),
                    b,
                    nodes@.subrange(i + 1, nodes@.len() as int),
                    in_var_decl,
                    rest,
                ) implies spec_lowers_each(
                env,
                vars,
                spec_recorded(start.backend),
                b,
                nodes@,
                in_var_decl,
                out@.subrange(head.len() as int, out@.len() as int) + rest,
            ) by {
                let whole = seq![lowered] + rest;
                if tail.len() == 1 {
                    assert(rest.len() == 0);
                }
                assert(whole.len() == tail.len());
                assert(whole.subrange(1, whole.len() as int) =~= rest);
                assert(whole[0] == lowered);
                assert(spec_reached(spec_recorded(prev.backend), spec_recorded(ctx.backend)));
                assert(spec_lowers(
                    env,
                    vars,
                    spec_recorded(prev.backend),
                    spec_recorded(ctx.backend),
                    *tail[0],
                    None,
                    in_var_decl,
                    whole[0],
                ));
                assert(spec_lowers_each(
                    env,
                    vars,
                    spec_recorded(prev.backend),
                    b,
                    tail,
                    in_var_decl,
                    whole,
                ));
                assert(before.subrange(head.len() as int, before.len() as int) + whole
                    =~= out@.subrange(head.len() as int, out@.len() as int) + rest);
            }
        }
        i += 1;
    }
    proof {
        let none = Seq::<IRValueRef>::empty();
        let done = nodes@.subrange(i as int, nodes@.len() as int);
        assert(done.len() == 0);
        assert(spec_lowers_each(
            env,
            vars,
            spec_recorded(ctx.backend),
            spec_recorded(ctx.backend),
            done,
            in_var_decl,
            none,
        ));
        assert(out@.subrange(head.len() as int, out@.len() as int) + none =~= out@.subrange(
            head.len() as int,
            out@.len() as int,
        ));
        if first is None {
            assert(out@.subrange(0, out@.len() as int) =~= out@);
        }
        assert(spec_shapes_of(out@) =~= spec_shapes_of(head) + spec_shapes_of(
            out@.subrange(head.len() as int, out@.len() as int),
        ));
    }
    Ok(out)
}

/// Lowers an integer literal: a constant of the 64-bit signed type.
fn lower_integer_literal<'ctx>(ctx: &mut IRContext<'ctx>, v: i64) -> (r: PositionlessResult<
    IRValueRef,
>)
    ensures
        final(ctx).only_built(old(ctx)),
        spec_integer_literal(*old(ctx), *final(ctx), v, r),
        r is Ok ==> spec_is_signed(*old(ctx).type_storage.map@[SIGNED64_TYPE_HASH]),
        spec_judged(
            r,
            spec_value_verdict(spec_env(*old(ctx)), None, ASTTreeNode::IntegerLit(v), None, false),
        ),
{
    let t = match ctx.type_storage.get(SIGNED64_TYPE_HASH) {
        Some(t) => t,
        None => {
            return Err(PositionlessError::with_message(IR_FIND_PRIMITIVE_TYPE));
        },
    };
    let made = IRNewValue::from_signed(&mut ctx.backend, t, widen(v));
    match made {
        Ok(val) => Ok(IRValueRef::from_val(val)),
        Err(e) => Err(e),
    }
}

/// Lowers a string literal: its text inside a variable declaration, a constant
/// global elsewhere.
fn lower_string_literal<'ctx>(ctx: &mut IRContext<'ctx>, text: &String, in_var_decl: bool) -> (r:
    PositionlessResult<IRValueRef>)
    ensures
        final(ctx).only_built(old(ctx)),
        spec_string_literal(*old(ctx), *final(ctx), *text, in_var_decl, r),
{
    let t = match ctx.type_storage.get(POINTER_TYPE_HASH) {
        Some(t) => t,
        None => {
            return Err(PositionlessError::with_message(IR_FIND_PRIMITIVE_TYPE));
        },
    };
    if in_var_decl {
        return Ok(IRValueRef::from_tempstr(text.clone()));
    }
    let made = IRStaticVariable::from_str(
        &mut ctx.backend,
        text.as_str(),
        "__string_literal".to_string(),
        t,
    );
    match made {
        Ok(global) => Ok(IRValueRef::from_static(Rc::new(global))),
        Err(e) => Err(e),
    }
}

/// Resolves a variable: as a field of the instance `left` where there is one,
/// as a static variable or a variable of the body otherwise.
fn resolve_variable<'ctx>(
    lctx: Option<&IRLocalContext>,
    ctx: &mut IRContext<'ctx>,
    hash: u64,
    left: Option<IRPointer>,
) -> (r: PositionlessResult<IRValueRef>)
    ensures
        final(ctx).only_built(old(ctx)),
        match left {
            Some(l) => spec_field_access(*old(ctx), *final(ctx), l, hash, r),
            None => spec_variable_ref(spec_vars(lctx), *old(ctx), hash, r) && final(ctx).backend.idle(&old(ctx).backend),
        },
        r matches Ok(val) ==> spec_resolves(
            spec_env(*old(ctx)),
            spec_vars(lctx),
            spec_recorded(old(ctx).backend),
            spec_recorded(final(ctx).backend),
            hash,
            left,
            val,
        ),
        spec_judged(
            r,
            spec_variable_verdict(
                spec_env(*old(ctx)),
                spec_static_opt(spec_vars(lctx)),
                hash,
                spec_left_type(left),
            ),
        ),
{
    proof {
        if left is Some {
            lemma_same_type_reflexive(left->Some_0.t);
        }
    }
    match left {
        Some(l) => {
            let struct_t = l.t.get_structured_type_descriptor()?;
            let made = struct_t.get_pointer_for_field_noref(&mut ctx.backend, l, hash);
            match made {
                Ok(ptr) => Ok(IRValueRef::from_pointer(ptr)),
                Err(e) => Err(e),
            }
        },
        None => match lctx {
            Some(local) => get_variable_ref(local, ctx, hash),
            None => match ctx.get_variable(hash) {
                Ok(v) => Ok(IRValueRef::from_static(v)),
                Err(_) => Err(PositionlessError::with_message(IR_FIND_VARIABLE)),
            },
        },
    }
}

/// Resolves the callee of a call: a function of the module, or a member
/// function of the receiver's type.
pub(crate) fn resolve_callee<'ctx>(ctx: &IRContext<'ctx>, receiver: &Option<IRPointer>, hash: u64) -> (r:
    PositionlessResult<Rc<IRFunction>>)
    ensures
        match spec_callee(spec_env(*ctx), *receiver, hash) {
            Some(f) => r == Ok::<Rc<IRFunction>, PositionlessError>(f),
            None => r is Err,
        },
        match spec_callee_verdict(spec_env(*ctx), spec_left_type(*receiver), hash) {
            Ok(f) => r == Ok::<Rc<IRFunction>, PositionlessError>(f),
            Err(c) => spec_refused(r, c),
        },
{
    match receiver {
        Some(l) => match l.t.get_structured_type_descriptor() {
            Ok(descriptor) => descriptor.get_function(hash),
            Err(e) => Err(e),
        },
        None => ctx.get_funtion(hash),
    }
}

/// Builds the arithmetic of two lowered operands.
fn build_math<'ctx>(
    ctx: &mut IRContext<'ctx>,
    left_ref: IRValueRef,
    right_ref: IRValueRef,
    operator: MathOperator,
    assigns: bool,
) -> (r: PositionlessResult<IRValueRef>)
    ensures
        final(ctx).only_built(old(ctx)),
        r matches Ok(val) ==> spec_math_built(
            spec_recorded(old(ctx).backend),
            spec_recorded(final(ctx).backend),
            left_ref,
            right_ref,
            operator,
            assigns,
            val,
        ),
        left_ref.kind is TempString || right_ref.kind is TempString ==> r is Err,
        left_ref.spec_type() matches Some(t) && !spec_is_numeric(*t) ==> fails_with(
            r,
            IR_INVALID_MATH_VAL,
        ) && final(ctx).backend.idle(&old(ctx).backend),
        assigns && !(left_ref.kind is Ptr) ==> r is Err,
        spec_settled(
            r,
            spec_math_refusal(spec_shape_of(left_ref), spec_shape_of(right_ref), assigns),
        ),
{
    let ghost start = ctx.backend;
    let t = left_ref.get_type()?;
    if !t.is_numeric_type() {
        return Err(PositionlessError::with_message(IR_INVALID_MATH_VAL));
    }
    let got_l = left_ref.obtain(&mut ctx.backend);
    let l_obtained = got_l?;
    let ghost with_l = ctx.backend;
    let cast_l = l_obtained.coerce_to(&mut ctx.backend, &t);
    let l_val = cast_l?;
    let got_r = right_ref.obtain(&mut ctx.backend);
    let r_obtained = got_r?;
    let ghost with_r = ctx.backend;
    let cast_r = r_obtained.coerce_to(&mut ctx.backend, &t);
    let r_val = cast_r?;
    let ghost fitted = ctx.backend;
    let made = make_math_operation(&mut ctx.backend, l_val, r_val, "_math".to_string(), operator);
    let out = made?;
    let ghost built = ctx.backend;
    if assigns {
        let ptr = match left_ref.as_pointer() {
            Ok(p) => p,
            Err(_) => {
                return Err(PositionlessError::with_message(IR_ASSIGN_NOVAR));
            },
        };
        if !ptr.store(&mut ctx.backend, out) {
            return Err(PositionlessError::with_message(INKWELL_FUNC_FAILED));
        }
    }
    let result = IRValueRef::from_val(IRNewValue::new(out, t));
    proof {
        assert(spec_obtains(spec_recorded(start), spec_recorded(with_l), left_ref, l_obtained));
        assert(spec_obtains(spec_recorded(with_l), spec_recorded(with_r), right_ref, r_obtained));
        assert(spec_coerces(
            spec_recorded(with_r),
            spec_recorded(fitted),
            r_obtained,
            *l_obtained.t,
            r_val,
        ));
        assert(spec_step(
            spec_recorded(fitted),
            spec_recorded(built),
            Instr::Binary { op: spec_math_op(operator), lhs: l_val, rhs: r_val, dest: out },
        ));
    }
    Ok(result)
}

/// Lowers a node that stands for a value and gives a reference to the value.
///
/// `left` is the aggregate instance that the node is resolved in, for the right
/// side of a dot access: a variable is then a field of the instance, and a call
/// goes to a member function, with the instance as its first argument. A dot
/// access lowers its left side first, in the instance that it is itself
/// resolved in, and must get a stack location for it; its right side is then
/// resolved in that location.
#[verifier::rlimit(100)]
pub fn parse_ir_value<'ctx>(
    lctx: Option<&IRLocalContext>,
    ctx: &mut IRContext<'ctx>,
    node: &ASTTreeNode,
    left: Option<IRPointer>,
    in_var_decl: bool,
) -> (r: PositionlessResult<IRValueRef>)
    ensures
        final(ctx).only_built(old(ctx)),
        r matches Ok(val) ==> spec_lowers(
            spec_env(*old(ctx)),
            spec_vars(lctx),
            spec_recorded(old(ctx).backend),
            spec_recorded(final(ctx).backend),
            *node,
            left,
            in_var_decl,
            val,
        ),
        spec_judged(
            r,
            spec_value_verdict(
                spec_env(*old(ctx)),
                spec_static_opt(spec_vars(lctx)),
                *node,
                spec_left_type(left),
                in_var_decl,
            ),
        ),
        !spec_is_value_node(*node) ==> fails_with(r, IR_VALUE_NODE) && final(ctx).backend.idle(
            &old(ctx).backend,
        ),
        node matches ASTTreeNode::IntegerLit(v) ==> spec_integer_literal(
            *old(ctx),
            *final(ctx),
            *v,
            r,
        ),
        node matches ASTTreeNode::StringLit(s) ==> spec_string_literal(
            *old(ctx),
            *final(ctx),
            *s,
            in_var_decl,
            r,
        ),
        node matches ASTTreeNode::VariableReference(e) ==> match left {
            Some(l) => spec_field_access(*old(ctx), *final(ctx), l, e.hash, r),
            None => spec_variable_ref(spec_vars(lctx), *old(ctx), e.hash, r) && final(ctx).backend.idle(&old(ctx).backend),
        },
        node matches ASTTreeNode::FunctionCall { func, args: _ } ==> match spec_callee(
            spec_env(*old(ctx)),
            left,
            func.hash,
        ) {
            Some(f) => f.ret_type is None ==> r is Err,
            None => r is Err,
        },
    decreases node, 1nat,
{
    let ghost start = *ctx;
    let ghost env = spec_env(start);
    match node {
        ASTTreeNode::IntegerLit(v) => lower_integer_literal(ctx, *v),
        ASTTreeNode::StringLit(v) => lower_string_literal(ctx, v, in_var_decl),
        ASTTreeNode::VariableReference(e) => resolve_variable(lctx, ctx, e.hash, left),
        ASTTreeNode::FunctionCall { func, args } => {
            let (receiver, first) = match left {
                Some(l) => {
                    let first = IRValueRef::from_pointer(l.duplicate());
                    (Some(l), Some(first))
                },
                None => (None, None),
            };
            proof {
                if left is Some {
                    lemma_same_type_reflexive(left->Some_0.t);
                }
            }
            let callee = resolve_callee(ctx, &receiver, func.hash);
            let lowered = parse_ir_values(lctx, ctx, args, first, in_var_decl);
            let arguments = lowered?;
            let f = callee?;
            let ghost with_args = *ctx;
            let ghost refs = arguments@;
            let res = f.call(&mut ctx.backend, arguments, true);
            match res? {
                Some(p) => {
                    let ghost out = p;
                    let result = IRValueRef::from_pointer(p);
                    proof {
                        lemma_same_type_reflexive(out.t);
                        assert(spec_calls(
                            spec_recorded(with_args.backend),
                            spec_recorded(ctx.backend),
                            *f,
                            refs,
                            true,
                            Some(out),
                        ));
                    }
                    Ok(result)
                },
                None => if f.ret_type.is_some() {
                    Err(PositionlessError::with_message(INKWELL_FUNC_FAILED))
                } else {
                    Err(PositionlessError::with_message(IR_FUNC_VOID_VALUE))
                },
            }
        },
        ASTTreeNode::MathResult { lval, rval, operator, assigns } => {
            let lowered_l = parse_ir_value(lctx, ctx, lval, None, in_var_decl);
            let left_ref = lowered_l?;
            let ghost with_l = *ctx;
            let ghost x = left_ref;
            let lowered_r = parse_ir_value(lctx, ctx, rval, None, in_var_decl);
            let right_ref = lowered_r?;
            let ghost with_r = *ctx;
            let ghost y = right_ref;
            let made = build_math(ctx, left_ref, right_ref, *operator, *assigns);
            let result = made?;
            proof {
                assert(spec_env(with_l) == env && spec_env(with_r) == env);
                assert(spec_reached(spec_recorded(start.backend), spec_recorded(with_l.backend)));
                assert(spec_math_built(
                    spec_recorded(with_r.backend),
                    spec_recorded(ctx.backend),
                    x,
                    y,
                    *operator,
                    *assigns,
                    result,
                ));
            }
            Ok(result)
        },
        ASTTreeNode::OperatorBasedConditionMember { lval, rval, operator } => {
            let lowered_l = parse_ir_value(lctx, ctx, lval, None, in_var_decl);
            let l_val = lowered_l?;
            let ghost with_l = *ctx;
            let ghost x = l_val;
            let lowered_r = parse_ir_value(lctx, ctx, rval, None, in_var_decl);
            let r_val = lowered_r?;
            let ghost with_r = *ctx;
            let ghost y = r_val;
            let made = make_bool_cmp_int(ctx, l_val, r_val, *operator);
            match made {
                Ok(compared) => {
                    let ghost out = compared;
                    let result = IRValueRef::from_val(compared);
                    proof {
                        assert(spec_env(with_l) == env && spec_env(with_r) == env);
                        assert(spec_reached(
                            spec_recorded(start.backend),
                            spec_recorded(with_l.backend),
                        ));
                        assert(spec_compares(
                            env.types,
                            spec_recorded(with_r.backend),
                            spec_recorded(ctx.backend),
                            x,
                            y,
                            *operator,
                            out,
                        ));
                    }
                    Ok(result)
                },
                Err(e) => Err(e),
            }
        },
        ASTTreeNode::BooleanBasedConditionMember { val, negate } => {
            let lowered = parse_ir_value(lctx, ctx, val, None, in_var_decl);
            let v = lowered?;
            if *negate {
                let ghost with_v = *ctx;
                let ghost x = v;
                let made = make_bool_xor(ctx, v);
                return match made {
                    Ok(flipped) => {
                        let ghost out = flipped;
                        let result = IRValueRef::from_val(flipped);
                        proof {
                            assert(spec_env(with_v) == env);
                            assert(spec_negates(
                                env.types,
                                spec_recorded(with_v.backend),
                                spec_recorded(ctx.backend),
                                x,
                                out,
                            ));
                        }
                        Ok(result)
                    },
                    Err(e) => Err(e),
                };
            }
            Ok(v)
        },
        ASTTreeNode::StructLRFunction { l, r } => {
            let lowered = parse_ir_value(lctx, ctx, l, left, in_var_decl);
            let l_val = lowered?;
            let l_ptr = l_val.as_pointer()?;
            let ghost with_l = *ctx;
            let ghost x = l_val;
            let ghost p = l_ptr;
            let made = parse_ir_value(lctx, ctx, r, Some(l_ptr), in_var_decl);
            proof {
                assert(spec_env(with_l) == env);
                assert(spec_reached(spec_recorded(start.backend), spec_recorded(with_l.backend)));
                assert(spec_points(x, p));
            }
            made
        },
        ASTTreeNode::StructLRVariable { l, r } => {
            let lowered = parse_ir_value(lctx, ctx, l, left, in_var_decl);
            let l_val = lowered?;
            let l_ptr = l_val.as_pointer()?;
            let ghost with_l = *ctx;
            let ghost x = l_val;
            let ghost p = l_ptr;
            let made = parse_ir_value(lctx, ctx, r, Some(l_ptr), in_var_decl);
            proof {
                assert(spec_env(with_l) == env);
                assert(spec_reached(spec_recorded(start.backend), spec_recorded(with_l.backend)));
                assert(spec_points(x, p));
            }
            made
        },
        _ => Err(PositionlessError::with_message(IR_VALUE_NODE)),
    }
}

} // verus!

//! Booleans: negation and the comparison of integers.

use vstd::prelude::*;

use crate::commons::err::{PositionlessError, PositionlessResult, fails_with};
use crate::commons::utils::map::spec_get;
use crate::errors::errors::{IR_FIND_PRIMITIVE_TYPE, IR_OBTAIN_COND, IR_OBTAIN_TYPE, IR_VALUE_REF_TEMP_TYPE};
use crate::ir::backend::{BinaryOp, Instr, Predicate};
use crate::ir::ctx::IRContext;
use crate::ir::refs::IRValueRef;
use crate::ir::rules::{spec_coerces, spec_compares, spec_negates, spec_obtains, spec_ready, spec_recorded, spec_step};
use crate::ir::types::BOOL_TYPE_HASH;
use crate::ir::verdict::{spec_cmp_refusal, spec_settled, spec_shape_of, spec_xor_refusal};
use crate::ir::types::typing::{spec_is_signed};
use crate::ir::utils::{backend_failure, share};
use crate::ir::values::{IRNewValue, spec_is_integral};
use crate::lexer::toks::comp::ComparingOperator;

verus! {

/// The predicate that a comparing operator is lowered to. The ordering
/// operators have a signed and an unsigned predicate; equality and inequality
/// have one predicate for both.
pub open spec fn spec_select_predicate(comp: ComparingOperator, signed: bool) -> Predicate {
    match comp {
        ComparingOperator::Equal => Predicate::Equal,
        ComparingOperator::NotEqual => Predicate::NotEqual,
        ComparingOperator::Higher => if signed {
            Predicate::SignedGreater
        } else {
            Predicate::UnsignedGreater
        },
        ComparingOperator::HigherEqual => if signed {
            Predicate::SignedGreaterEqual
        } else {
            Predicate::UnsignedGreaterEqual
        },
        ComparingOperator::Lower => if signed {
            Predicate::SignedLess
        } else {
            Predicate::UnsignedLess
        },
        ComparingOperator::LowerEqual => if signed {
            Predicate::SignedLessEqual
        } else {
            Predicate::UnsignedLessEqual
        },
    }
}

/// The predicate for a comparing operator on operands of the given signedness.
pub fn select_predicate(comp: ComparingOperator, signed: bool) -> (r: Predicate)
    ensures
        r == spec_select_predicate(comp, signed),
{
    match comp {
        ComparingOperator::Equal => Predicate::Equal,
        ComparingOperator::NotEqual => Predicate::NotEqual,
        ComparingOperator::Higher => if signed {
            Predicate::SignedGreater
        } else {
            Predicate::UnsignedGreater
        },
        ComparingOperator::HigherEqual => if signed {
            Predicate::SignedGreaterEqual
        } else {
            Predicate::UnsignedGreaterEqual
        },
        ComparingOperator::Lower => if signed {
            Predicate::SignedLess
        } else {
            Predicate::UnsignedLess
        },
        ComparingOperator::LowerEqual => if signed {
            Predicate::SignedLessEqual
        } else {
            Predicate::UnsignedLessEqual
        },
    }
}

/// Signedness decides the predicate of the four ordering operators and of no
/// other.
pub proof fn law_predicate_signedness(comp: ComparingOperator)
    ensures
        (comp == ComparingOperator::Equal || comp == ComparingOperator::NotEqual)
            <==> spec_select_predicate(comp, true) == spec_select_predicate(comp, false),
{
}

/// The negation of a boolean: its exclusive or with the boolean type's constant
/// for true. A boolean is a narrow integer, and this is how it is flipped.
pub fn make_bool_xor<'ctx>(ctx: &mut IRContext<'ctx>, b: IRValueRef) -> (r: PositionlessResult<
    IRNewValue,
>)
    ensures
        final(ctx).only_built(old(ctx)),
        b.kind is TempString ==> fails_with(r, IR_VALUE_REF_TEMP_TYPE) && final(ctx).backend.idle(
            &old(ctx).backend,
        ),
        b.spec_type() matches Some(t) && !(*t is Bool) ==> r is Err,
        spec_get(old(ctx).type_storage.map@, BOOL_TYPE_HASH) is None ==> r is Err,
        match spec_ready(b) {
            Some(v) => if !(*v.t is Bool) {
                fails_with(r, IR_OBTAIN_COND) && final(ctx).backend.idle(&old(ctx).backend)
            } else {
                spec_get(old(ctx).type_storage.map@, BOOL_TYPE_HASH) is None ==> fails_with(
                    r,
                    IR_FIND_PRIMITIVE_TYPE,
                ) && final(ctx).backend.idle(&old(ctx).backend)
            },
            None => true,
        },
        spec_settled(r, spec_xor_refusal(old(ctx).type_storage.map@, spec_shape_of(b))),
        r matches Ok(v) ==> spec_negates(
            old(ctx).type_storage.map@,
            spec_recorded(old(ctx).backend),
            spec_recorded(final(ctx).backend),
            b,
            v,
        ),
{
    let ghost start = ctx.backend;
    let got = b.obtain(&mut ctx.backend);
    let val = got?;
    let ghost loaded = ctx.backend;
    let ghost obtained = val;
    let flag = match val.obtain_as_bool() {
        Some(v) => v,
        None => {
            return Err(PositionlessError::with_message(IR_OBTAIN_COND));
        },
    };
    let bool_t = match ctx.type_storage.get(BOOL_TYPE_HASH) {
        Some(v) => v,
        None => {
            return Err(PositionlessError::with_message(IR_FIND_PRIMITIVE_TYPE));
        },
    };
    let ty = bool_t.get_inkwell_inttype()?;
    let one = match ctx.backend.const_unsigned(ty, 1) {
        Ok(v) => v,
        Err(e) => {
            return Err(backend_failure(e));
        },
    };
    let ghost with_one = ctx.backend;
    let xor_v = match ctx.backend.build_binary(BinaryOp::Xor, flag, one, "xor_") {
        Ok(v) => v,
        Err(e) => {
            return Err(backend_failure(e));
        },
    };
    proof {
        assert(spec_obtains(spec_recorded(start), spec_recorded(loaded), b, obtained));
        assert(spec_step(
            spec_recorded(loaded),
            spec_recorded(with_one),
            Instr::ConstUnsigned { ty, value: 1, dest: one },
        ));
    }
    Ok(IRNewValue::new(xor_v, bool_t))
}

/// Whether the last entry of a record is a comparison with the given predicate
/// and result.
pub open spec fn ends_in_compare(
    trace: Seq<Instr>,
    predicate: Predicate,
    dest: crate::ir::backend::ValueHandle,
) -> bool {
    trace.len() >= 1 && match trace[trace.len() - 1] {
        Instr::Compare { predicate: p, lhs: _, rhs: _, dest: d } => p == predicate && d == dest,
        _ => false,
    }
}

/// The comparison of two integers. Both operands are brought to the type of
/// the left one, and the signedness of that type picks the predicate.
pub fn make_bool_cmp_int<'ctx>(
    ctx: &mut IRContext<'ctx>,
    a: IRValueRef,
    b: IRValueRef,
    comp: ComparingOperator,
) -> (r: PositionlessResult<IRNewValue>)
    ensures
        final(ctx).only_built(old(ctx)),
        a.kind is TempString || b.kind is TempString ==> r is Err,
        spec_get(old(ctx).type_storage.map@, BOOL_TYPE_HASH) is None ==> r is Err,
        a.kind is TempString ==> fails_with(r, IR_VALUE_REF_TEMP_TYPE) && final(ctx).backend.idle(
            &old(ctx).backend,
        ),
        spec_ready(a) is Some && b.kind is TempString ==> fails_with(r, IR_VALUE_REF_TEMP_TYPE)
            && final(ctx).backend.idle(&old(ctx).backend),
        match (spec_ready(a), spec_ready(b)) {
            (Some(x), Some(y)) => if spec_get(old(ctx).type_storage.map@, BOOL_TYPE_HASH)
                is None {
                fails_with(r, IR_FIND_PRIMITIVE_TYPE) && final(ctx).backend.idle(
                    &old(ctx).backend,
                )
            } else {
                !spec_is_integral(*x.t) || !spec_is_integral(*y.t) ==> fails_with(
                    r,
                    IR_OBTAIN_TYPE,
                ) && final(ctx).backend.idle(&old(ctx).backend)
            },
            _ => true,
        },
        spec_settled(
            r,
            spec_cmp_refusal(old(ctx).type_storage.map@, spec_shape_of(a), spec_shape_of(b)),
        ),
        r matches Ok(v) ==> spec_compares(
            old(ctx).type_storage.map@,
            spec_recorded(old(ctx).backend),
            spec_recorded(final(ctx).backend),
            a,
            b,
            comp,
            v,
        ),
        r matches Ok(v) ==> {
            &&& Some(v.t) == spec_get(old(ctx).type_storage.map@, BOOL_TYPE_HASH)
            &&& a.spec_type() matches Some(t) && ends_in_compare(
                final(ctx).backend.emitted(),
                spec_select_predicate(comp, spec_is_signed(*t)),
                v.value,
            )
        },
{
    let ghost start = ctx.backend;
    let got_a = a.obtain(&mut ctx.backend);
    let a_val = got_a?;
    let ghost with_a = ctx.backend;
    let ghost left = a_val;
    let got_b = b.obtain(&mut ctx.backend);
    let b_val = got_b?;
    let ghost with_b = ctx.backend;
    let ghost right = b_val;
    let t = share(&a_val.t);
    let bool_t = match ctx.type_storage.get(BOOL_TYPE_HASH) {
        Some(v) => v,
        None => {
            return Err(PositionlessError::with_message(IR_FIND_PRIMITIVE_TYPE));
        },
    };
    let cast_a = a_val.coerce_to(&mut ctx.backend, &t);
    let a_int = cast_a?;
    let cast_b = b_val.coerce_to(&mut ctx.backend, &t);
    let b_int = cast_b?;
    let ghost fitted = ctx.backend;
    let predicate = select_predicate(comp, t.is_signed());
    let cmp_v = match ctx.backend.build_compare(predicate, a_int, b_int, "_cmp") {
        Ok(v) => v,
        Err(e) => {
            return Err(backend_failure(e));
        },
    };
    proof {
        assert(spec_obtains(spec_recorded(start), spec_recorded(with_a), a, left));
        assert(spec_obtains(spec_recorded(with_a), spec_recorded(with_b), b, right));
        assert(spec_coerces(spec_recorded(with_b), spec_recorded(fitted), right, *left.t, b_int));
    }
    Ok(IRNewValue::new(cmp_v, bool_t))
}

} // verus!

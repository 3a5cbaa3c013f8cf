//! Integer arithmetic.

use vstd::prelude::*;
use crate::commons::err::PositionlessResult;
use crate::ir::backend::{Backend, BinaryOp, Instr, ValueHandle};
use crate::ir::utils::{backend_failed, backend_failure};
use crate::lexer::toks::math::MathOperator;

verus! {

/// The instruction that an operator of the language is lowered to. Division
/// is the signed one.
pub open spec fn spec_math_op(operation: MathOperator) -> BinaryOp {
    match operation {
        MathOperator::ADD => BinaryOp::Add,
        MathOperator::SUBSTRACT => BinaryOp::Sub,
        MathOperator::DIVIDE => BinaryOp::SignedDiv,
        MathOperator::MULTIPLY => BinaryOp::Mul,
    }
}

/// Builds the arithmetic instruction for `operation` on two integers.
pub fn make_math_operation<'ctx>(
    backend: &mut Backend<'ctx>,
    a: ValueHandle,
    b: ValueHandle,
    name: String,
    operation: MathOperator,
) -> (r: PositionlessResult<ValueHandle>)
    ensures
        match r {
            Ok(dest) => final(backend).built(
                old(backend),
                Instr::Binary { op: spec_math_op(operation), lhs: a, rhs: b, dest },
            ),
            Err(_) => backend_failed(r) && final(backend).idle(old(backend)),
        },
{
    let op = match operation {
        MathOperator::ADD => BinaryOp::Add,
        MathOperator::SUBSTRACT => BinaryOp::Sub,
        MathOperator::DIVIDE => BinaryOp::SignedDiv,
        MathOperator::MULTIPLY => BinaryOp::Mul,
    };
    match backend.build_binary(op, a, b, name.as_str()) {
        Ok(v) => Ok(v),
        Err(e) => Err(backend_failure(e)),
    }
}

} // verus!

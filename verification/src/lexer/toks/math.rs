//! The arithmetic operators.

use vstd::prelude::*;

verus! {

#[allow(non_camel_case_types)]
#[derive(Debug, PartialEq, Eq, Clone, Copy, Structural)]
pub enum MathOperator {
    ADD,
    SUBSTRACT,
    MULTIPLY,
    DIVIDE,
}

} // verus!

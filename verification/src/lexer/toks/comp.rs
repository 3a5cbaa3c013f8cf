//! The comparing operators.

use vstd::prelude::*;

verus! {

#[derive(Debug, PartialEq, Eq, Clone, Copy, Structural)]
pub enum ComparingOperator {
    /// `A == B`
    Equal,
    /// `A != B`
    NotEqual,
    /// `A > B`
    Higher,
    /// `A >= B`
    HigherEqual,
    /// `A < B`
    Lower,
    /// `A <= B`
    LowerEqual,
}

} // verus!

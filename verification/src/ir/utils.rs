//! Small helpers of the IR.

use vstd::prelude::*;
use std::rc::Rc;
use crate::commons::err::{PositionlessError, PositionlessResult, fails_with};
use crate::errors::errors::{BACKEND_HANDLE, INKWELL_FUNC_FAILED};
use crate::ir::backend::BackendError;

verus! {

/// Calls `Rc::clone`: another pointer to the same allocation, so to the same
/// value.
#[verifier::external_body]
pub(crate) fn share<T>(rc: &Rc<T>) -> (r: Rc<T>)
    ensures
        r == *rc,
{
    Rc::clone(rc)
}

/// A result that failed because the instruction builder did not build what it
/// was asked to.
pub open spec fn backend_failed<K>(r: PositionlessResult<K>) -> bool {
    fails_with(r, INKWELL_FUNC_FAILED) || fails_with(r, BACKEND_HANDLE)
}

/// The error of the IR for a failure of the instruction builder.
pub fn backend_failure(e: BackendError) -> (r: PositionlessError)
    ensures
        e == BackendError::UnknownHandle ==> r.reason@ == BACKEND_HANDLE@,
        e != BackendError::UnknownHandle ==> r.reason@ == INKWELL_FUNC_FAILED@,
{
    match e {
        BackendError::UnknownHandle => PositionlessError::with_message(BACKEND_HANDLE),
        _ => PositionlessError::with_message(INKWELL_FUNC_FAILED),
    }
}

/// A 64-bit integer as a 128-bit one.
pub fn widen(v: i64) -> (r: i128)
    ensures
        r == v,
{
    v as i128
}

/// A slot that is filled once, after the value that owns it was made.
pub struct LateInit<K> {
    inner: Option<K>,
}

impl<K> LateInit<K> {
    /// What the slot holds.
    pub closed spec fn content(&self) -> Option<K> {
        self.inner
    }

    /// An empty slot.
    pub fn new() -> (r: Self)
        ensures
            r.content() is None,
    {
        LateInit { inner: None }
    }

    /// Fills the slot; what it held before is dropped.
    pub fn fill(&mut self, inner: K)
        ensures
            final(self).content() == Some(inner),
    {
        self.inner = Some(inner);
    }

    /// What the slot holds, if it was filled.
    pub fn get(&self) -> (r: Option<&K>)
        ensures
            match r {
                Some(v) => self.content() == Some(*v),
                None => self.content() is None,
            },
    {
        self.inner.as_ref()
    }
}

/// A key that is its own hash.
#[derive(Debug, Clone, Copy, PartialEq, Eq, Hash, Structural)]
pub struct SelfHash {
    pub hash: u64,
}

} // verus!

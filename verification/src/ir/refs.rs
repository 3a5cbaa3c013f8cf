//! The value reference: one handle over the four shapes that a value comes in.

use vstd::prelude::*;
use std::rc::Rc;
use crate::commons::err::{PositionlessError, PositionlessResult, fails_with};
use crate::errors::errors::{IR_NOT_POINTER, IR_NOT_SAME_TYPE, IR_NOT_TEMPSTR, IR_VALUE_REF_TEMP_TYPE};
use crate::ir::backend::{Backend, Instr, ValueHandle};
use crate::ir::irstruct::ptr::IRPointer;
use crate::ir::irstruct::staticvars::{IRStaticVariable, StaticContent};
use crate::ir::rules::{spec_obtains, spec_recorded, spec_takes_slot};
use crate::ir::verdict::{spec_obtain_refusal, spec_settled, spec_shape_of};
use crate::ir::types::typing::{IRType, spec_same_type};
use crate::ir::utils::{backend_failed, share};
use crate::ir::values::IRNewValue;

verus! {

/// The shapes of a value.
pub enum IRValueRefKind {
    /// A location on the stack: the value has to be loaded from it.
    Ptr(Rc<IRType>, IRPointer),
    /// A value that is there already.
    Val(IRNewValue),
    /// A static variable of the module.
    Global(Rc<IRType>, Rc<IRStaticVariable>),
    /// The text of a string literal whose representation is decided by what
    /// consumes it.
    TempString(String),
}

/// A uniform handle on a value of any shape.
pub struct IRValueRef {
    pub kind: IRValueRefKind,
}

impl IRValueRef {
    pub fn from_tempstr(str: String) -> (r: Self)
        ensures
            r.kind == IRValueRefKind::TempString(str),
    {
        IRValueRef { kind: IRValueRefKind::TempString(str) }
    }

    pub fn from_val(val: IRNewValue) -> (r: Self)
        ensures
            r.kind == IRValueRefKind::Val(val),
    {
        IRValueRef { kind: IRValueRefKind::Val(val) }
    }

    pub fn from_static(val: Rc<IRStaticVariable>) -> (r: Self)
        ensures
            r.kind == IRValueRefKind::Global(val.t, val),
    {
        IRValueRef { kind: IRValueRefKind::Global(share(&val.t), val) }
    }

    pub fn from_pointer(ptr: IRPointer) -> (r: Self)
        ensures
            r.kind == IRValueRefKind::Ptr(ptr.t, ptr),
    {
        IRValueRef { kind: IRValueRefKind::Ptr(share(&ptr.t), ptr) }
    }

    /// Whether the value has to be loaded before it can be used.
    pub fn requires_load(&self) -> (r: bool)
        ensures
            r == (self.kind is Ptr),
    {
        match &self.kind {
            IRValueRefKind::Ptr(_, _) => true,
            _ => false,
        }
    }

    /// The type of the value. The text of a string literal has none yet.
    pub open spec fn spec_type(&self) -> Option<Rc<IRType>> {
        match self.kind {
            IRValueRefKind::Val(v) => Some(v.t),
            IRValueRefKind::Ptr(t, _) => Some(t),
            IRValueRefKind::Global(t, _) => Some(t),
            IRValueRefKind::TempString(_) => None,
        }
    }

    /// Materializes the value: loads it from a stack location, takes it as it is
    /// where it is there already, and takes the value or the address of a static
    /// variable. The text of a string literal cannot be materialized.
    pub fn obtain<'ctx>(&self, backend: &mut Backend<'ctx>) -> (r: PositionlessResult<IRNewValue>)
        ensures
            final(backend).advanced(old(backend)),
            r matches Ok(v) ==> spec_obtains(
                spec_recorded(*old(backend)),
                spec_recorded(*final(backend)),
                *self,
                v,
            ),
            match self.kind {
                IRValueRefKind::Ptr(t, ptr) => if spec_same_type(*ptr.t, *t) {
                    match r {
                        Ok(v) => v.t == t && final(backend).built(
                            old(backend),
                            Instr::Load { ptr: ptr.ptr, dest: v.value },
                        ),
                        Err(_) => backend_failed(r) && final(backend).idle(old(backend)),
                    }
                } else {
                    fails_with(r, IR_NOT_SAME_TYPE) && final(backend).idle(old(backend))
                },
                IRValueRefKind::Val(v) => r == Ok::<IRNewValue, PositionlessError>(v) && final(backend).idle(old(backend)),
                IRValueRefKind::Global(t, g) => r == Ok::<IRNewValue, PositionlessError>(
                    IRNewValue {
                        value: match g.spec_content() {
                            StaticContent::Value(v) => v,
                            StaticContent::Text(v) => v,
                        },
                        t,
                    },
                ) && final(backend).idle(old(backend)),
                IRValueRefKind::TempString(_) => fails_with(r, IR_VALUE_REF_TEMP_TYPE) && final(backend).idle(old(backend)),
            },
            r is Err ==> final(backend).idle(old(backend)),
            spec_settled(r, spec_obtain_refusal(spec_shape_of(*self))),
    {
        match &self.kind {
            IRValueRefKind::Ptr(t, ptr) => {
                let r = ptr.load(backend, share(t));
                proof {
                    if r is Ok {
                    } else {
                    }
                }
                r
            },
            IRValueRefKind::Val(v) => {
                Ok(v.duplicate())
            },
            IRValueRefKind::Global(t, global) => {
                Ok(IRNewValue::new(global.as_val()?, share(t)))
            },
            IRValueRefKind::TempString(_) => {
                Err(PositionlessError::with_message(IR_VALUE_REF_TEMP_TYPE))
            },
        }
    }

    /// The type of the value; an error for the text of a string literal.
    pub fn get_type(&self) -> (r: PositionlessResult<Rc<IRType>>)
        ensures
            match self.spec_type() {
                Some(t) => r == Ok::<Rc<IRType>, PositionlessError>(t),
                None => fails_with(r, IR_VALUE_REF_TEMP_TYPE),
            },
    {
        match &self.kind {
            IRValueRefKind::Val(v) => Ok(share(&v.t)),
            IRValueRefKind::Ptr(t, _) => Ok(share(t)),
            IRValueRefKind::Global(t, _) => Ok(share(t)),
            IRValueRefKind::TempString(_) => Err(
                PositionlessError::with_message(IR_VALUE_REF_TEMP_TYPE),
            ),
        }
    }

    /// The stack location behind the reference. Only a pointer has one; it is
    /// what an assignment or a field access needs.
    pub fn as_pointer(&self) -> (r: PositionlessResult<IRPointer>)
        ensures
            match self.kind {
                IRValueRefKind::Ptr(_, ptr) => r is Ok && r->Ok_0.ptr == ptr.ptr && r->Ok_0.t
                    == ptr.t && r->Ok_0.name@ == ptr.name@,
                _ => fails_with(r, IR_NOT_POINTER),
            },
    {
        match &self.kind {
            IRValueRefKind::Ptr(_, ptr) => Ok(ptr.duplicate()),
            _ => Err(PositionlessError::with_message(IR_NOT_POINTER)),
        }
    }

    /// An address for the value: the stack location itself, a new slot that the
    /// value is stored to, or the static variable's value or address.
    pub fn obtain_pointer<'ctx>(&self, backend: &mut Backend<'ctx>) -> (r: PositionlessResult<
        ValueHandle,
    >)
        ensures
            final(backend).advanced(old(backend)),
            match self.kind {
                IRValueRefKind::Ptr(_, ptr) => r == Ok::<ValueHandle, PositionlessError>(ptr.ptr)
                    && final(backend).idle(old(backend)),
                IRValueRefKind::Val(v) => r matches Ok(p) ==> exists|slot: IRPointer| #[trigger]
                    spec_takes_slot(
                        spec_recorded(*old(backend)),
                        spec_recorded(*final(backend)),
                        v.t,
                        Some(IRValueRef { kind: IRValueRefKind::Val(v) }),
                        slot,
                    ) && slot.ptr == p,
                IRValueRefKind::Global(_, g) => r == Ok::<ValueHandle, PositionlessError>(
                    match g.spec_content() {
                        StaticContent::Value(v) => v,
                        StaticContent::Text(v) => v,
                    },
                ) && final(backend).idle(old(backend)),
                IRValueRefKind::TempString(_) => fails_with(r, IR_VALUE_REF_TEMP_TYPE) && final(backend).idle(old(backend)),
            },
    {
        match &self.kind {
            IRValueRefKind::Ptr(_, ptr) => {
                Ok(ptr.ptr)
            },
            IRValueRefKind::Val(v) => {
                let made = IRPointer::create(
                    backend,
                    "_val_toptr".to_string(),
                    share(&v.t),
                    Some(IRValueRef::from_val(v.duplicate())),
                );
                let ptr = made?;
                proof {
                    assert(spec_takes_slot(
                        spec_recorded(*old(backend)),
                        spec_recorded(*backend),
                        v.t,
                        Some(IRValueRef { kind: IRValueRefKind::Val(*v) }),
                        ptr,
                    ));
                }
                Ok(ptr.ptr)
            },
            IRValueRefKind::Global(_, g) => {
                if g.is_compiletime_replaceable() {
                    return g.as_val();
                }
                g.as_string_ref()
            },
            IRValueRefKind::TempString(_) => {
                Err(PositionlessError::with_message(IR_VALUE_REF_TEMP_TYPE))
            },
        }
    }

    /// The text of a string literal; an error for every other shape.
    pub fn obtain_tempstr(&self) -> (r: PositionlessResult<String>)
        ensures
            match self.kind {
                IRValueRefKind::TempString(e) => r is Ok && r->Ok_0@ == e@,
                _ => fails_with(r, IR_NOT_TEMPSTR),
            },
    {
        match &self.kind {
            IRValueRefKind::TempString(e) => Ok(e.clone()),
            _ => Err(PositionlessError::with_message(IR_NOT_TEMPSTR)),
        }
    }
}

} // verus!

//! Typed pointers to stack slots and fields.

use vstd::prelude::*;
use std::rc::Rc;
use crate::commons::err::{PositionlessError, PositionlessResult, fails_with};
use crate::errors::errors::IR_NOT_SAME_TYPE;
use crate::ir::backend::{Backend, Instr, TypeHandle, ValueHandle};
use crate::ir::refs::IRValueRef;
use crate::ir::rules::{spec_obtains, spec_recorded, spec_step};
use crate::ir::types::typing::{IRType, spec_base_type, spec_same_type};
use crate::ir::utils::{backend_failed, backend_failure, share};
use crate::ir::values::IRNewValue;

verus! {

/// A pointer of the code generator together with the type of what it points
/// to.
pub struct IRPointer {
    /// The pointer itself. Use it directly only within aggregates.
    pub ptr: ValueHandle,
    pub t: Rc<IRType>,
    pub name: String,
}

impl IRPointer {
    pub fn new(ptr: ValueHandle, t: Rc<IRType>, name: String) -> (r: Self)
        ensures
            r.ptr == ptr,
            r.t == t,
            r.name == name,
    {
        IRPointer { ptr, t, name }
    }

    /// Another handle on the same pointer.
    pub fn duplicate(&self) -> (r: Self)
        ensures
            r.ptr == self.ptr,
            r.t == self.t,
            r.name@ == self.name@,
    {
        IRPointer { ptr: self.ptr, t: share(&self.t), name: self.name.clone() }
    }

    /// A new stack slot for a value of type `t`. Where an initial value is
    /// given, it is materialized and stored into the slot.
    pub fn create<'ctx>(
        backend: &mut Backend<'ctx>,
        name: String,
        t: Rc<IRType>,
        initial: Option<IRValueRef>,
    ) -> (r: PositionlessResult<Self>)
        ensures
            final(backend).advanced(old(backend)),
            r matches Ok(p) ==> crate::ir::rules::spec_takes_slot(
                crate::ir::rules::spec_recorded(*old(backend)),
                crate::ir::rules::spec_recorded(*final(backend)),
                t,
                initial,
                p,
            ),
            r matches Ok(p) ==> {
                &&& p.t == t
                &&& p.name == name
                &&& p.ptr.index == old(backend).issued().values
                &&& old(backend).emitted().len() < final(backend).emitted().len()
                &&& final(backend).emitted()[old(backend).emitted().len() as int] == (
                Instr::Alloca { ty: spec_base_type(*t), dest: p.ptr })
                &&& initial is None ==> final(backend).built(
                    old(backend),
                    Instr::Alloca { ty: spec_base_type(*t), dest: p.ptr },
                )
                &&& initial is Some ==> match final(backend).emitted().last() {
                    Instr::Store { ptr: q, value: _ } => q == p.ptr,
                    _ => false,
                }
            },
            r is Err && initial is None ==> backend_failed(r) && final(backend).idle(old(backend)),
            crate::ir::verdict::spec_settled(
                r,
                match initial {
                    Some(first) => crate::ir::verdict::spec_obtain_refusal(
                        crate::ir::verdict::spec_shape_of(first),
                    ),
                    None => None,
                },
            ),
    {
        let ghost start = *backend;
        let ty = t.get_inkwell_basetype();
        let ptr = match backend.build_alloca(ty, name.as_str()) {
            Ok(v) => v,
            Err(e) => {
                return Err(backend_failure(e));
            },
        };
        let ghost slot = *backend;
        proof {
            assert(spec_step(
                spec_recorded(start),
                spec_recorded(slot),
                Instr::Alloca { ty, dest: ptr },
            ));
        }
        match initial {
            Some(init) => {
                let ghost first = init;
                let val = init.obtain(backend)?;
                let ghost loaded = *backend;
                let ghost obtained = val;
                match backend.build_store(ptr, val.value) {
                    Err(e) => {
                        return Err(backend_failure(e));
                    },
                    Ok(_) => {},
                }
                proof {
                    assert(slot.emitted()[start.emitted().len() as int] == (Instr::Alloca {
                        ty,
                        dest: ptr,
                    }));
                    assert(backend.emitted()[start.emitted().len() as int]
                        == slot.emitted()[start.emitted().len() as int]);
                    assert(spec_obtains(
                        spec_recorded(slot),
                        spec_recorded(loaded),
                        first,
                        obtained,
                    ));
                    assert(spec_step(
                        spec_recorded(loaded),
                        spec_recorded(*backend),
                        Instr::Store { ptr, value: obtained.value },
                    ));
                }
            },
            None => {},
        }
        Ok(IRPointer { ptr, t, name })
    }

    /// Loads what the pointer points to, as a value of type `t`, which must be
    /// the pointer's own type.
    pub fn load<'ctx>(&self, backend: &mut Backend<'ctx>, t: Rc<IRType>) -> (r: PositionlessResult<
        IRNewValue,
    >)
        ensures
            !spec_same_type(*self.t, *t) ==> fails_with(r, IR_NOT_SAME_TYPE) && final(backend).idle(
                old(backend),
            ),
            spec_same_type(*self.t, *t) ==> match r {
                Ok(v) => v.t == t && final(backend).built(
                    old(backend),
                    Instr::Load { ptr: self.ptr, dest: v.value },
                ),
                Err(_) => backend_failed(r) && final(backend).idle(old(backend)),
            },
    {
        if !self.t.is_same(&t) {
            return Err(PositionlessError::with_message(IR_NOT_SAME_TYPE));
        }
        match backend.build_load(self.ptr, self.name.as_str()) {
            Ok(v) => Ok(IRNewValue::new(v, t)),
            Err(e) => Err(backend_failure(e)),
        }
    }

    /// Loads what the pointer points to, given the code generator's type of an
    /// instance of the pointer's type.
    pub fn load_from_inkwell_type<'ctx>(
        &self,
        backend: &mut Backend<'ctx>,
        pointer_type: TypeHandle,
        t: TypeHandle,
    ) -> (r: PositionlessResult<IRNewValue>)
        ensures
            self.spec_instance_type(pointer_type) != t ==> fails_with(r, IR_NOT_SAME_TYPE)
                && final(backend).idle(old(backend)),
            self.spec_instance_type(pointer_type) == t ==> match r {
                Ok(v) => v.t == self.t && final(backend).built(
                    old(backend),
                    Instr::Load { ptr: self.ptr, dest: v.value },
                ),
                Err(_) => backend_failed(r) && final(backend).idle(old(backend)),
            },
    {
        if self.t.get_inkwell_instance_basetype(pointer_type) != t {
            return Err(PositionlessError::with_message(IR_NOT_SAME_TYPE));
        }
        match backend.build_load(self.ptr, self.name.as_str()) {
            Ok(v) => Ok(IRNewValue::new(v, share(&self.t))),
            Err(e) => Err(backend_failure(e)),
        }
    }

    /// The code generator's type of an instance of the pointer's type.
    pub open spec fn spec_instance_type(&self, pointer_type: TypeHandle) -> TypeHandle {
        if *self.t is Struct || *self.t is Layout {
            pointer_type
        } else {
            spec_base_type(*self.t)
        }
    }

    /// Stores `val` to where the pointer points; whether that was built.
    pub fn store<'ctx>(&self, backend: &mut Backend<'ctx>, val: ValueHandle) -> (r: bool)
        ensures
            r ==> final(backend).built(old(backend), Instr::Store { ptr: self.ptr, value: val }),
            !r ==> final(backend).idle(old(backend)),
            self.ptr.index >= old(backend).issued().values || val.index >= old(backend).issued().values ==> !r,
    {
        match backend.build_store(self.ptr, val) {
            Ok(_) => true,
            Err(_) => false,
        }
    }
}

} // verus!

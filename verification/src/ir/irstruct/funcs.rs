//! The functions of the module as the IR sees them.

use vstd::prelude::*;
use vstd::string::StringExecFns;
use std::rc::Rc;
use crate::commons::err::{PositionlessError, PositionlessResult, fails_with};
use crate::errors::errors::{BACKEND_HANDLE, IR_ARGUMENT, IR_ARGUMENT_NUMERIC, IR_VALUE_REF_TEMP_TYPE};
use crate::ir::backend::{Backend, BlockHandle, FunctionHandle, Instr, TypeHandle, ValueHandle};
use crate::ir::ctx::IRLocalContext;
use crate::ir::irstruct::ptr::IRPointer;
use crate::ir::refs::IRValueRef;
use crate::ir::rules::{Recorded, spec_all_ready, spec_none_text, spec_ready_at, spec_text_at, spec_call_built, spec_calls, spec_function_declared, spec_materializes, spec_obtains, spec_recorded, spec_step};
use crate::ir::types::typing::{IRType, spec_is_numeric};
use crate::ir::utils::{backend_failure, share};
use crate::ir::values::IRNewValue;
use crate::ir::verdict::{spec_arguments_refusal, spec_settled, spec_shape_of, spec_shapes_of};

verus! {

/// A function: its handle in the backend, its signature, the local context of
/// its body, and its entry block if it has a body.
pub struct IRFunction {
    pub func: FunctionHandle,
    pub ret_type: Option<Rc<IRType>>,
    pub args: Vec<Rc<IRType>>,
    pub name: String,
    pub lctx: IRLocalContext,
    pub entry: Option<BlockHandle>,
}

/// The code generator's types of the parameters of a function.
fn parameter_types(args: &Vec<Rc<IRType>>) -> (r: Vec<TypeHandle>)
    ensures
        r@.len() == args@.len(),
        forall|i: int|
            0 <= i < args@.len() ==> #[trigger] r@[i] == crate::ir::types::typing::spec_base_type(
                *args@[i],
            ),
{
    let mut out: Vec<TypeHandle> = Vec::new();
    let mut i: usize = 0;
    while i < args.len()
        invariant
            i <= args@.len(),
            out@.len() == i,
            forall|k: int|
                0 <= k < i ==> #[trigger] out@[k] == crate::ir::types::typing::spec_base_type(
                    *args@[k],
                ),
        decreases args@.len() - i,
    {
        out.push(args[i].get_inkwell_basetype());
        i += 1;
    }
    out
}

/// Whether the backend has issued the types of a signature: that of each
/// parameter and, where the function returns a value, that of the result.
pub open spec fn spec_signature_known(
    issued: nat,
    ret_type: Option<Rc<IRType>>,
    args: Seq<Rc<IRType>>,
) -> bool {
    &&& forall|i: int|
        0 <= i < args.len() ==> crate::ir::types::typing::spec_base_type(
            *#[trigger] args[i],
        ).index < issued
    &&& ret_type matches Some(t) ==> crate::ir::types::typing::spec_base_type(*t).index < issued
}

/// The types of a signature were issued just if the handles that stand for
/// its parameters were, and that of its result.
proof fn lemma_signature_known(
    issued: nat,
    ret_type: Option<Rc<IRType>>,
    args: Seq<Rc<IRType>>,
    handles: Seq<TypeHandle>,
    ret: Option<TypeHandle>,
)
    requires
        handles.len() == args.len(),
        forall|i: int|
            0 <= i < args.len() ==> #[trigger] handles[i]
                == crate::ir::types::typing::spec_base_type(*args[i]),
        ret == match ret_type {
            Some(t) => Some(crate::ir::types::typing::spec_base_type(*t)),
            None => None,
        },
    ensures
        spec_signature_known(issued, ret_type, args) <==> crate::ir::backend::all_types_known(
            handles,
            issued,
        ) && (ret matches Some(t) ==> t.index < issued),
{
    if spec_signature_known(issued, ret_type, args) {
        assert forall|i: int| 0 <= i < handles.len() implies (#[trigger] handles[i]).index
            < issued by {
            assert(crate::ir::types::typing::spec_base_type(*args[i]).index < issued);
        }
    }
    if crate::ir::backend::all_types_known(handles, issued) {
        assert forall|i: int| 0 <= i < args.len() implies crate::ir::types::typing::spec_base_type(
            *#[trigger] args[i],
        ).index < issued by {
            assert(handles[i].index < issued);
        }
    }
}

/// Materializes the arguments of a call, in order.
fn materialize<'ctx>(backend: &mut Backend<'ctx>, args: &Vec<IRValueRef>) -> (r: PositionlessResult<
    Vec<ValueHandle>,
>)
    ensures
        final(backend).advanced(old(backend)),
        r matches Ok(handles) ==> spec_materializes(
            spec_recorded(*old(backend)),
            spec_recorded(*final(backend)),
            args@,
            handles@,
        ) && spec_none_text(args@, args@.len() as int),
        args@.len() > 0 && args@[0].kind is TempString ==> fails_with(r, IR_VALUE_REF_TEMP_TYPE)
            && final(backend).idle(old(backend)),
        !spec_none_text(args@, args@.len() as int) ==> r is Err,
        spec_all_ready(args@, args@.len() as int) ==> r is Ok && final(backend).idle(old(backend)),
        spec_settled(r, spec_arguments_refusal(spec_shapes_of(args@))),
{
    let ghost start = *backend;
    let mut handles: Vec<ValueHandle> = Vec::new();
    let mut i: usize = 0;
    proof {
        assert(spec_shapes_of(args@).subrange(0, args@.len() as int) =~= spec_shapes_of(args@));
    }
    proof {
        assert forall|b: Recorded, more: Seq<IRValueRef>, rest: Seq<ValueHandle>| #[trigger]
            spec_materializes(spec_recorded(*backend), b, more, rest) implies spec_materializes(
            spec_recorded(start),
            b,
            args@.subrange(0, 0) + more,
            handles@ + rest,
        ) by {
            assert(args@.subrange(0, 0) + more =~= more);
            assert(handles@ + rest =~= rest);
        }
    }
    while i < args.len()
        invariant
            i <= args@.len(),
            handles@.len() == i,
            start == *old(backend),
            backend.advanced(&start),
            i == 0 ==> backend.idle(&start),
            spec_none_text(args@, i as int),
            spec_all_ready(args@, i as int) ==> backend.idle(&start),
            spec_arguments_refusal(spec_shapes_of(args@).subrange(i as int, args@.len() as int))
                == spec_arguments_refusal(spec_shapes_of(args@)),
            forall|b: Recorded, more: Seq<IRValueRef>, rest: Seq<ValueHandle>| #[trigger]
                spec_materializes(spec_recorded(*backend), b, more, rest)
                    ==> spec_materializes(
                    spec_recorded(start),
                    b,
                    args@.subrange(0, i as int) + more,
                    handles@ + rest,
                ),
        decreases args@.len() - i,
    {
        let ghost prev = *backend;
        let ghost before = handles@;
        proof {
            assert(spec_all_ready(args@, i + 1) ==> spec_ready_at(args@, i as int));
            assert(i > 0 ==> !spec_text_at(args@, 0));
            assert(spec_text_at(args@, i as int) ==> !spec_none_text(
                args@,
                args@.len() as int,
            ));
        }
        proof {
            let rest = spec_shapes_of(args@).subrange(i as int, args@.len() as int);
            assert(rest[0] == spec_shape_of(args@[i as int]));
            assert(rest.subrange(1, rest.len() as int) =~= spec_shapes_of(args@).subrange(
                i + 1,
                args@.len() as int,
            ));
        }
        let got = args[i].obtain(backend);
        let value = got?;
        proof {
            assert(!spec_text_at(args@, i as int));
            assert(spec_all_ready(args@, i + 1) ==> spec_all_ready(args@, i as int));
        }
        let ghost obtained = value;
        handles.push(value.obtain());
        proof {
            assert forall|b: Recorded, more: Seq<IRValueRef>, rest: Seq<ValueHandle>| #[trigger]
                spec_materializes(
                    spec_recorded(*backend),
                    b,
                    more,
                    rest,
                ) implies spec_materializes(
                spec_recorded(start),
                b,
                args@.subrange(0, i + 1) + more,
                handles@ + rest,
            ) by {
                let refs = seq![args@[i as int]] + more;
                let them = seq![obtained.value] + rest;
                if more.len() == 0 {
                    assert(rest.len() == 0);
                }
                assert(them.len() == refs.len());
                assert(refs.subrange(1, refs.len() as int) =~= more);
                assert(them.subrange(1, them.len() as int) =~= rest);
                assert(spec_obtains(
                    spec_recorded(prev),
                    spec_recorded(*backend),
                    refs[0],
                    obtained,
                ));
                assert(spec_materializes(spec_recorded(prev), b, refs, them));
                assert(args@.subrange(0, i as int) + refs =~= args@.subrange(0, i + 1)
                    + more);
                assert(before + them =~= handles@ + rest);
            }
        }
        i += 1;
    }
    let ghost ready = *backend;
    proof {
        assert(args@.len() > 0 ==> !spec_text_at(args@, 0));
        assert(spec_none_text(args@, args@.len() as int));
        assert(spec_all_ready(args@, args@.len() as int) ==> ready.idle(&start));
    }
    proof {
        let none = Seq::<IRValueRef>::empty();
        let nothing = Seq::<ValueHandle>::empty();
        assert(spec_materializes(spec_recorded(ready), spec_recorded(ready), none, nothing));
        assert(args@.subrange(0, i as int) + none =~= args@);
        assert(handles@ + nothing =~= handles@);
        assert(spec_materializes(
            spec_recorded(start),
            spec_recorded(ready),
            args@,
            handles@,
        ));
    }
    Ok(handles)
}

impl IRFunction {
    /// A function with a body: an entry block is appended to it.
    pub fn new<'ctx>(
        backend: &mut Backend<'ctx>,
        name: String,
        func: FunctionHandle,
        ret_type: Option<Rc<IRType>>,
        args: Vec<Rc<IRType>>,
    ) -> (r: PositionlessResult<Self>)
        ensures
            match r {
                Ok(f) => {
                    &&& f.func == func
                    &&& f.ret_type == ret_type
                    &&& f.args == args
                    &&& f.name == name
                    &&& f.lctx.current_depth == 0
                    &&& f.lctx.vars@ == Map::<u64, crate::ir::ctx::LocalIRVariable>::empty()
                    &&& f.lctx.spec_wf()
                    &&& f.entry matches Some(b) && final(backend).built(
                        old(backend),
                        Instr::Block { func, dest: b },
                    )
                },
                Err(_) => fails_with(r, BACKEND_HANDLE) && final(backend).idle(old(backend)),
            },
            r is Ok <==> func.index < old(backend).issued().functions,
    {
        let block = match backend.append_block(func, "entry") {
            Ok(b) => b,
            Err(e) => {
                return Err(backend_failure(e));
            },
        };
        Ok(
            IRFunction {
                func,
                ret_type,
                args,
                name,
                entry: Some(block),
                lctx: IRLocalContext::new(),
            },
        )
    }

    /// A function without a body.
    pub fn new_shadow(
        name: String,
        func: FunctionHandle,
        ret_type: Option<Rc<IRType>>,
        args: Vec<Rc<IRType>>,
    ) -> (r: Self)
        ensures
            r.func == func,
            r.ret_type == ret_type,
            r.args == args,
            r.name == name,
            r.entry is None,
            r.lctx.current_depth == 0,
            r.lctx.vars@ == Map::<u64, crate::ir::ctx::LocalIRVariable>::empty(),
            r.lctx.spec_wf(),
    {
        IRFunction { func, ret_type, args, name, entry: None, lctx: IRLocalContext::new() }
    }

    /// Declares a function in the module and gives it no body.
    pub fn create_shadow<'ctx>(
        backend: &mut Backend<'ctx>,
        name: String,
        ret_type: Option<Rc<IRType>>,
        args: Vec<Rc<IRType>>,
    ) -> (r: PositionlessResult<Self>)
        ensures
            final(backend).advanced(old(backend)),
            match r {
                Ok(f) => {
                    &&& f.ret_type == ret_type
                    &&& f.args == args
                    &&& f.name == name
                    &&& f.entry is None
                    &&& f.lctx.current_depth == 0
                    &&& f.lctx.vars@ == Map::<u64, crate::ir::ctx::LocalIRVariable>::empty()
                    &&& spec_function_declared(
                        spec_recorded(*old(backend)),
                        spec_recorded(*final(backend)),
                        f,
                    )
                },
                Err(_) => fails_with(r, BACKEND_HANDLE) && final(backend).idle(old(backend)),
            },
            r is Ok <==> spec_signature_known(old(backend).issued().types, ret_type, args@),
    {
        let kargs = parameter_types(&args);
        let ret = match &ret_type {
            Some(t) => Some(t.get_inkwell_basetype()),
            None => None,
        };
        proof {
            lemma_signature_known(backend.issued().types, ret_type, args@, kargs@, ret);
        }
        let func = match backend.declare_function(name.as_str(), ret, &kargs) {
            Ok(f) => f,
            Err(e) => {
                return Err(backend_failure(e));
            },
        };
        let made = IRFunction::new_shadow(name, func, ret_type, args);
        proof {
            assert(kargs@ =~= Seq::new(
                made.args@.len(),
                |i: int| crate::ir::types::typing::spec_base_type(*made.args@[i]),
            ));
        }
        Ok(made)
    }

    /// Declares a function in the module and appends its entry block.
    pub fn create<'ctx>(
        backend: &mut Backend<'ctx>,
        name: String,
        ret_type: Option<Rc<IRType>>,
        args: Vec<Rc<IRType>>,
    ) -> (r: PositionlessResult<Self>)
        ensures
            final(backend).advanced(old(backend)),
            match r {
                Ok(f) => {
                    &&& f.ret_type == ret_type
                    &&& f.args == args
                    &&& f.name == name
                    &&& f.func.index == old(backend).issued().functions
                    &&& f.lctx.current_depth == 0
                    &&& f.lctx.vars@ == Map::<u64, crate::ir::ctx::LocalIRVariable>::empty()
                    &&& f.lctx.spec_wf()
                    &&& f.entry matches Some(b) && exists|s: Recorded| #[trigger]
                        spec_function_declared(spec_recorded(*old(backend)), s, f) && spec_step(
                            s,
                            spec_recorded(*final(backend)),
                            Instr::Block { func: f.func, dest: b },
                        )
                },
                Err(_) => fails_with(r, BACKEND_HANDLE) && final(backend).idle(old(backend)),
            },
            r is Ok <==> spec_signature_known(old(backend).issued().types, ret_type, args@),
    {
        let kargs = parameter_types(&args);
        let ret = match &ret_type {
            Some(t) => Some(t.get_inkwell_basetype()),
            None => None,
        };
        proof {
            lemma_signature_known(backend.issued().types, ret_type, args@, kargs@, ret);
        }
        let func = match backend.declare_function(name.as_str(), ret, &kargs) {
            Ok(f) => f,
            Err(e) => {
                return Err(backend_failure(e));
            },
        };
        let ghost declared = spec_recorded(*backend);
        let r = IRFunction::new(backend, name, func, ret_type, args);
        proof {
            if r is Ok {
                assert(kargs@ =~= Seq::new(
                    r->Ok_0.args@.len(),
                    |i: int| crate::ir::types::typing::spec_base_type(*r->Ok_0.args@[i]),
                ));
                assert(spec_function_declared(spec_recorded(*old(backend)), declared, r->Ok_0));
            }
        }
        r
    }

    /// Calls the function with the given arguments, each materialized in turn.
    /// Where the result is asked for and the function returns a value, the value
    /// is stored to a new stack slot, and the slot is the result.
    pub fn call<'ctx>(&self, backend: &mut Backend<'ctx>, args: Vec<IRValueRef>, grab_return: bool) -> (r:
        PositionlessResult<Option<IRPointer>>)
        ensures
            final(backend).advanced(old(backend)),
            r matches Ok(p) ==> spec_calls(
                spec_recorded(*old(backend)),
                spec_recorded(*final(backend)),
                *self,
                args@,
                grab_return,
                p,
            ),
            r matches Ok(p) ==> {
                &&& !grab_return || self.ret_type is None ==> p is None
                &&& p matches Some(slot) ==> self.ret_type == Some(slot.t)
            },
            args@.len() > 0 && args@[0].kind is TempString ==> fails_with(
                r,
                IR_VALUE_REF_TEMP_TYPE,
            ) && final(backend).idle(old(backend)),
            !spec_none_text(args@, args@.len() as int) ==> r is Err,
            spec_all_ready(args@, args@.len() as int) && self.func.index >= old(backend).issued().functions ==> fails_with(
                r,
                BACKEND_HANDLE,
            ) && final(backend).idle(old(backend)),
            spec_settled(r, spec_arguments_refusal(spec_shapes_of(args@))),
    {
        let gathered = materialize(backend, &args);
        let handles = gathered?;
        let ghost ready = *backend;
        let call = match backend.build_call(self.func, &handles, self.name.as_str()) {
            Ok(v) => v,
            Err(e) => {
                return Err(backend_failure(e));
            },
        };
        let ghost called = *backend;
        proof {
            assert(spec_call_built(
                spec_recorded(ready),
                spec_recorded(called),
                *self,
                handles@,
                call,
            ));
        }
        if !grab_return {
            return Ok(None);
        }
        let return_type = match &self.ret_type {
            Some(ret) => share(ret),
            None => {
                return Ok(None);
            },
        };
        let val = match call {
            Some(v) => v,
            None => {
                return Ok(None);
            },
        };
        let val = IRNewValue::new(val, share(&return_type));
        let made = IRPointer::create(
            backend,
            "function_ret_".to_string().concat(self.name.as_str()),
            return_type,
            Some(IRValueRef::from_val(val)),
        );
        let pointer = made?;
        Ok(Some(pointer))
    }

    /// Moves the insertion cursor to the end of the entry block, so that the body
    /// can be filled in. A function without a body is left alone.
    pub fn prepare_body_filling<'ctx>(&self, backend: &mut Backend<'ctx>) -> (r: bool)
        ensures
            match self.entry {
                Some(b) => if r {
                    final(backend).built(old(backend), Instr::Position { block: b })
                } else {
                    final(backend).idle(old(backend)) && b.index >= old(backend).issued().blocks
                },
                None => !r && final(backend).idle(old(backend)),
            },
    {
        match self.entry {
            None => false,
            Some(b) => match backend.position_at_end(b) {
                Ok(_) => true,
                Err(_) => false,
            },
        }
    }

    /// The value of the parameter at place `ind`.
    pub fn get_nth_arg<'ctx>(&self, backend: &mut Backend<'ctx>, ind: u32) -> (r: PositionlessResult<
        ValueHandle,
    >)
        ensures
            match r {
                Ok(dest) => final(backend).built(
                    old(backend),
                    Instr::FunctionParam { func: self.func, index: ind, dest },
                ),
                Err(_) => fails_with(r, IR_ARGUMENT) && final(backend).idle(old(backend)),
            },
    {
        match backend.function_param(self.func, ind) {
            Ok(v) => Ok(v),
            Err(_) => Err(PositionlessError::with_message(IR_ARGUMENT)),
        }
    }

    /// The value of the parameter at place `ind`, which must be of an integer
    /// type.
    pub fn get_nth_arg_int<'ctx>(&self, backend: &mut Backend<'ctx>, ind: u32) -> (r:
        PositionlessResult<ValueHandle>)
        ensures
            ind >= self.args@.len() ==> fails_with(r, IR_ARGUMENT) && final(backend).idle(
                old(backend),
            ),
            ind < self.args@.len() && !spec_is_numeric(*self.args@[ind as int]) ==> fails_with(
                r,
                IR_ARGUMENT_NUMERIC,
            ) && final(backend).idle(old(backend)),
            ind < self.args@.len() && spec_is_numeric(*self.args@[ind as int]) ==> match r {
                Ok(dest) => final(backend).built(
                    old(backend),
                    Instr::FunctionParam { func: self.func, index: ind, dest },
                ),
                Err(_) => fails_with(r, IR_ARGUMENT) && final(backend).idle(old(backend)),
            },
    {
        if ind as usize >= self.args.len() {
            return Err(PositionlessError::with_message(IR_ARGUMENT));
        }
        if !self.args[ind as usize].is_numeric_type() {
            return Err(PositionlessError::with_message(IR_ARGUMENT_NUMERIC));
        }
        self.get_nth_arg(backend, ind)
    }
}

} // verus!
